//! Results as delimited rows: one header, then one row for each
//! measurement, with semicolons between the fields.

use vstd::prelude::*;
use vstd::string::*;
use crate::config::Config;
use crate::counter_map::CounterMap;
use crate::measure::common::{MeasurementResult, PhaseMeasurement, PhasesResult};
use crate::text::{
    decimal,
    insert_key,
    join_with,
    joined_with,
    lex_increasing,
    push_decimal,
    push_signed_decimal,
    signed_decimal,
    strings_of,
};

verus! {

/// The fields that tell which phase a row is for.
pub struct PhaseRowData<'a> {
    pub name: &'a str,
    pub start_token: Option<&'a str>,
    pub end_token: Option<&'a str>,
    pub start_line: Option<usize>,
    pub end_line: Option<usize>,
}

/// A [`PhaseRowData`] as a value of specifications.
pub ghost struct PhaseRowText {
    pub name: Seq<char>,
    pub start_token: Option<Seq<char>>,
    pub end_token: Option<Seq<char>>,
    pub start_line: Option<usize>,
    pub end_line: Option<usize>,
}

impl<'a> View for PhaseRowData<'a> {
    type V = PhaseRowText;

    open spec fn view(&self) -> PhaseRowText {
        PhaseRowText {
            name: self.name@,
            start_token: match self.start_token {
                Some(t) => Some(t@),
                None => None,
            },
            end_token: match self.end_token {
                Some(t) => Some(t@),
                None => None,
            },
            start_line: self.start_line,
            end_line: self.end_line,
        }
    }
}

impl<'a> PhaseRowData<'a> {
    /// The phase fields of a row.
    pub fn new(
        name: &'a str,
        start_token: Option<&'a str>,
        end_token: Option<&'a str>,
        start_line: Option<usize>,
        end_line: Option<usize>,
    ) -> (r: Self)
        ensures
            r.name == name,
            r.start_token == start_token,
            r.end_token == end_token,
            r.start_line == start_line,
            r.end_line == end_line,
    {
        PhaseRowData { name, start_token, end_token, start_line, end_line }
    }
}

/// The phase fields of the row of `phase`.
pub open spec fn phase_row_of(phase: PhaseMeasurement) -> PhaseRowText {
    PhaseRowText {
        name: phase.name@,
        start_token: match phase.start_token {
            Some(t) => Some(t@),
            None => None,
        },
        end_token: match phase.end_token {
            Some(t) => Some(t@),
            None => None,
        },
        start_line: phase.start_line,
        end_line: phase.end_line,
    }
}

/// Whether `keys` lists the names in `names`, each once, in the order of
/// dictionaries.
pub open spec fn is_key_list(keys: Seq<Seq<char>>, names: Set<Seq<char>>) -> bool {
    lex_increasing(keys) && keys.to_set() == names
}

/// The columns of the energy keys in the header.
pub open spec fn key_columns(keys: Seq<Seq<char>>) -> Seq<char>
    decreases keys.len(),
{
    if keys.len() == 0 {
        Seq::empty()
    } else {
        key_columns(keys.drop_last()) + keys.last() + "_uj;"@
    }
}

/// The header: the command, the iteration where rows have one, the phase
/// fields where rows have them, a column for each key, the duration and
/// the exit code.
pub open spec fn header_text(keys: Seq<Seq<char>>, include_iteration: bool, include_phase: bool) -> Seq<
    char,
> {
    "command;"@ + (if include_iteration {
        "iteration;"@
    } else {
        Seq::empty()
    }) + (if include_phase {
        "phase_name;start_token;end_token;start_line;end_line;"@
    } else {
        Seq::empty()
    }) + key_columns(keys) + "duration_ms;exit_code\n"@
}

/// The energy fields of a row: the value under each key, zero where the
/// measurement has none.
pub open spec fn value_columns(keys: Seq<Seq<char>>, energy: Map<Seq<char>, u64>) -> Seq<char>
    decreases keys.len(),
{
    if keys.len() == 0 {
        Seq::empty()
    } else {
        value_columns(keys.drop_last(), energy) + decimal(
            (if energy.dom().contains(keys.last()) {
                energy[keys.last()]
            } else {
                0
            }) as nat,
        ) + ";"@
    }
}

/// An optional text as a field: nothing where there is none.
pub open spec fn text_field(t: Option<Seq<char>>) -> Seq<char> {
    match t {
        Some(s) => s + ";"@,
        None => ";"@,
    }
}

/// An optional line number as a field: nothing where there is none.
pub open spec fn line_field(n: Option<usize>) -> Seq<char> {
    match n {
        Some(l) => decimal(l as nat) + ";"@,
        None => ";"@,
    }
}

/// The phase fields of a row.
pub open spec fn phase_fields(phase: Option<PhaseRowText>) -> Seq<char> {
    match phase {
        Some(p) => p.name + ";"@ + text_field(p.start_token) + text_field(p.end_token)
            + line_field(p.start_line) + line_field(p.end_line),
        None => Seq::empty(),
    }
}

/// The command as a field: its words with blanks between them, in
/// single quotes.
pub open spec fn command_field(command: Seq<Seq<char>>) -> Seq<char> {
    "'"@ + joined_with(command, " "@) + "';"@
}

/// The iteration as a field, where a row has one.
pub open spec fn iteration_field(iteration: Option<usize>) -> Seq<char> {
    match iteration {
        Some(i) => decimal(i as nat) + ";"@,
        None => Seq::empty(),
    }
}

/// The last two fields of a row and the end of the line.
pub open spec fn closing_fields(duration_ms: u128, exit_code: i32) -> Seq<char> {
    decimal(duration_ms as nat) + ";"@ + signed_decimal(exit_code as int) + "\n"@
}

/// A row: the command in single quotes, then the fields that the header
/// names.
pub open spec fn row_text(
    command: Seq<Seq<char>>,
    energy: Map<Seq<char>, u64>,
    duration_ms: u128,
    exit_code: i32,
    keys: Seq<Seq<char>>,
    iteration: Option<usize>,
    phase: Option<PhaseRowText>,
) -> Seq<char> {
    command_field(command) + iteration_field(iteration) + phase_fields(phase) + value_columns(
        keys,
        energy,
    ) + closing_fields(duration_ms, exit_code)
}

/// Writes the header to `out`.
pub fn write_header(out: &mut String, keys: &Vec<String>, include_iteration: bool, include_phase: bool)
    ensures
        final(out)@ == old(out)@ + header_text(
            strings_of(keys@),
            include_iteration,
            include_phase,
        ),
{
    let ghost all = strings_of(keys@);
    out.append("command;");
    if include_iteration {
        out.append("iteration;");
    }
    if include_phase {
        out.append("phase_name;start_token;end_token;start_line;end_line;");
    }
    let ghost head = out@;
    let mut i: usize = 0;
    while i < keys.len()
        invariant
            i <= keys@.len(),
            all == strings_of(keys@),
            out@ == head + key_columns(all.take(i as int)),
        decreases keys@.len() - i,
    {
        proof {
            assert(all.take(i + 1).drop_last() =~= all.take(i as int));
        }
        out.append(keys[i].as_str());
        out.append("_uj;");
        i += 1;
    }
    out.append("duration_ms;exit_code\n");
    proof {
        assert(all.take(i as int) =~= all);
    }
}

fn write_text_field(out: &mut String, t: Option<&str>)
    ensures
        final(out)@ == old(out)@ + text_field(
            match t {
                Some(s) => Some(s@),
                None => None,
            },
        ),
{
    match t {
        Some(s) => {
            out.append(s);
            out.append(";");
        },
        None => {
            out.append(";");
        },
    }
}

fn write_line_field(out: &mut String, n: Option<usize>)
    ensures
        final(out)@ == old(out)@ + line_field(n),
{
    match n {
        Some(l) => {
            push_decimal(out, l as u128);
            out.append(";");
        },
        None => {
            out.append(";");
        },
    }
}

fn write_command(out: &mut String, command: &Vec<String>)
    ensures
        final(out)@ == old(out)@ + command_field(strings_of(command@)),
{
    out.append("'");
    let command_text = join_with(command, " ");
    out.append(command_text.as_str());
    out.append("';");
}

fn write_iteration(out: &mut String, iteration: Option<usize>)
    ensures
        final(out)@ == old(out)@ + iteration_field(iteration),
{
    match iteration {
        Some(idx) => {
            push_decimal(out, idx as u128);
            out.append(";");
        },
        None => {
        },
    }
}

fn write_phase_fields(out: &mut String, phase_data: Option<&PhaseRowData>)
    ensures
        final(out)@ == old(out)@ + phase_fields(
            match phase_data {
                Some(p) => Some(p@),
                None => None,
            },
        ),
{
    match phase_data {
        Some(p) => {
            out.append(p.name);
            out.append(";");
            write_text_field(out, p.start_token);
            write_text_field(out, p.end_token);
            write_line_field(out, p.start_line);
            write_line_field(out, p.end_line);
        },
        None => {
        },
    }
}

fn write_values(out: &mut String, keys: &Vec<String>, energy: &CounterMap)
    ensures
        final(out)@ == old(out)@ + value_columns(strings_of(keys@), energy@),
{
    let ghost head = out@;
    let ghost all = strings_of(keys@);
    let mut i: usize = 0;
    while i < keys.len()
        invariant
            i <= keys@.len(),
            all == strings_of(keys@),
            out@ == head + value_columns(all.take(i as int), energy@),
        decreases keys@.len() - i,
    {
        proof {
            assert(all.take(i + 1).drop_last() =~= all.take(i as int));
        }
        let v = match energy.get(keys[i].as_str()) {
            Some(v) => v,
            None => 0,
        };
        push_decimal(out, v as u128);
        out.append(";");
        i += 1;
    }
    proof {
        assert(all.take(i as int) =~= all);
    }
}

fn write_closing(out: &mut String, duration_ms: u128, exit_code: i32)
    ensures
        final(out)@ == old(out)@ + closing_fields(duration_ms, exit_code),
{
    push_decimal(out, duration_ms);
    out.append(";");
    push_signed_decimal(out, exit_code);
    out.append("\n");
}

/// Writes a row to `out`.
pub fn write_row(
    out: &mut String,
    command: &Vec<String>,
    res: &MeasurementResult,
    keys: &Vec<String>,
    iteration: Option<usize>,
    phase_data: Option<&PhaseRowData>,
)
    ensures
        final(out)@ == old(out)@ + row_text(
            strings_of(command@),
            res.energy_uj@,
            res.duration_ms,
            res.exit_code,
            strings_of(keys@),
            iteration,
            match phase_data {
                Some(p) => Some(p@),
                None => None,
            },
        ),
{
    write_command(out, command);
    write_iteration(out, iteration);
    write_phase_fields(out, phase_data);
    write_values(out, keys, &res.energy_uj);
    write_closing(out, res.duration_ms, res.exit_code);
}

/// Adds the names of `map` to the increasing list `keys`.
pub fn add_keys(keys: &mut Vec<String>, map: &CounterMap)
    requires
        lex_increasing(strings_of(old(keys)@)),
    ensures
        lex_increasing(strings_of(final(keys)@)),
        strings_of(final(keys)@).to_set() == strings_of(old(keys)@).to_set().union(map@.dom()),
{
    let n = map.len();
    proof {
        map.lemma_entries();
    }
    let ghost names = map.keys();
    let ghost before = strings_of(keys@).to_set();
    let mut i: usize = 0;
    while i < n
        invariant
            i <= n,
            n == names.len(),
            names == map.keys(),
            lex_increasing(strings_of(keys@)),
            strings_of(keys@).to_set() == before.union(names.take(i as int).to_set()),
        decreases n - i,
    {
        let key = map.key_at(i);
        insert_key(keys, key);
        proof {
            let head = names.take(i as int);
            let next = names.take(i + 1);
            assert forall|x: Seq<char>| next.to_set().contains(x) <==> head.to_set().insert(
                names[i as int],
            ).contains(x) by {
                if x == names[i as int] {
                    assert(next[i as int] == x);
                }
            }
        }
        i += 1;
    }
    proof {
        assert(names.take(n as int) =~= names);
    }
}

/// The names of `map`, each once, in the order of dictionaries.
pub fn sorted_keys(map: &CounterMap) -> (keys: Vec<String>)
    ensures
        is_key_list(strings_of(keys@), map@.dom()),
{
    let mut keys: Vec<String> = Vec::new();
    proof {
        assert(strings_of(keys@).to_set() =~= Set::<Seq<char>>::empty());
    }
    add_keys(&mut keys, map);
    proof {
        assert(Set::<Seq<char>>::empty().union(map@.dom()) =~= map@.dom());
    }
    keys
}

/// The names that occur in the first `n` of `results`.
pub open spec fn result_names(results: Seq<(usize, MeasurementResult)>, n: int) -> Set<Seq<char>>
    decreases n,
{
    if n <= 0 {
        Set::empty()
    } else {
        result_names(results, n - 1).union(results[n - 1].1.energy_uj@.dom())
    }
}

/// The names that occur in `results`, each once, in the order of
/// dictionaries.
pub fn extract_domain_keys(results: &[(usize, MeasurementResult)]) -> (keys: Vec<String>)
    ensures
        is_key_list(strings_of(keys@), result_names(results@, results@.len() as int)),
{
    let mut keys: Vec<String> = Vec::new();
    let mut i: usize = 0;
    proof {
        assert(strings_of(keys@).to_set() =~= Set::<Seq<char>>::empty());
    }
    while i < results.len()
        invariant
            i <= results@.len(),
            is_key_list(strings_of(keys@), result_names(results@, i as int)),
        decreases results@.len() - i,
    {
        add_keys(&mut keys, &results[i].1.energy_uj);
        i += 1;
    }
    keys
}

/// The names that occur in the first `n` of `phases`.
pub open spec fn phase_names(phases: Seq<PhaseMeasurement>, n: int) -> Set<Seq<char>>
    decreases n,
{
    if n <= 0 {
        Set::empty()
    } else {
        phase_names(phases, n - 1).union(phases[n - 1].result.energy_uj@.dom())
    }
}

/// The names that occur in `phases`, each once, in the order of
/// dictionaries.
pub fn phase_keys(phases: &Vec<PhaseMeasurement>) -> (keys: Vec<String>)
    ensures
        is_key_list(strings_of(keys@), phase_names(phases@, phases@.len() as int)),
{
    let mut keys: Vec<String> = Vec::new();
    let mut i: usize = 0;
    proof {
        assert(strings_of(keys@).to_set() =~= Set::<Seq<char>>::empty());
    }
    while i < phases.len()
        invariant
            i <= phases@.len(),
            is_key_list(strings_of(keys@), phase_names(phases@, i as int)),
        decreases phases@.len() - i,
    {
        add_keys(&mut keys, &phases[i].result.energy_uj);
        i += 1;
    }
    keys
}

fn as_text(t: &Option<String>) -> (r: Option<&str>)
    ensures
        match r {
            Some(s) => *t matches Some(o) && s@ == o@,
            None => *t is None,
        },
{
    match t {
        Some(s) => Some(s.as_str()),
        None => None,
    }
}

/// The rows of the first `n` of `results`, each with its iteration.
pub open spec fn iteration_rows(
    command: Seq<Seq<char>>,
    results: Seq<(usize, MeasurementResult)>,
    keys: Seq<Seq<char>>,
    n: int,
) -> Seq<char>
    decreases n,
{
    if n <= 0 {
        Seq::empty()
    } else {
        iteration_rows(command, results, keys, n - 1) + row_text(
            command,
            results[n - 1].1.energy_uj@,
            results[n - 1].1.duration_ms,
            results[n - 1].1.exit_code,
            keys,
            Some(results[n - 1].0),
            None,
        )
    }
}

/// The rows of the first `n` of `phases`, of iteration `iteration` where
/// there is one.
pub open spec fn phase_rows(
    command: Seq<Seq<char>>,
    phases: Seq<PhaseMeasurement>,
    keys: Seq<Seq<char>>,
    iteration: Option<usize>,
    n: int,
) -> Seq<char>
    decreases n,
{
    if n <= 0 {
        Seq::empty()
    } else {
        phase_rows(command, phases, keys, iteration, n - 1) + row_text(
            command,
            phases[n - 1].result.energy_uj@,
            phases[n - 1].result.duration_ms,
            phases[n - 1].result.exit_code,
            keys,
            iteration,
            Some(phase_row_of(phases[n - 1])),
        )
    }
}

/// The rows of all phases of the first `n` of `results`.
pub open spec fn phase_iteration_rows(
    command: Seq<Seq<char>>,
    results: Seq<(usize, PhasesResult)>,
    keys: Seq<Seq<char>>,
    n: int,
) -> Seq<char>
    decreases n,
{
    if n <= 0 {
        Seq::empty()
    } else {
        phase_iteration_rows(command, results, keys, n - 1) + phase_rows(
            command,
            results[n - 1].1.phases@,
            keys,
            Some(results[n - 1].0),
            results[n - 1].1.phases@.len() as int,
        )
    }
}

fn write_phase_rows(
    out: &mut String,
    command: &Vec<String>,
    phases: &Vec<PhaseMeasurement>,
    keys: &Vec<String>,
    iteration: Option<usize>,
)
    ensures
        final(out)@ == old(out)@ + phase_rows(
            strings_of(command@),
            phases@,
            strings_of(keys@),
            iteration,
            phases@.len() as int,
        ),
{
    let ghost start = out@;
    let mut i: usize = 0;
    while i < phases.len()
        invariant
            i <= phases@.len(),
            out@ == start + phase_rows(
                strings_of(command@),
                phases@,
                strings_of(keys@),
                iteration,
                i as int,
            ),
        decreases phases@.len() - i,
    {
        let phase = &phases[i];
        let data = PhaseRowData::new(
            phase.name.as_str(),
            as_text(&phase.start_token),
            as_text(&phase.end_token),
            phase.start_line,
            phase.end_line,
        );
        write_row(out, command, &phase.result, keys, iteration, Some(&data));
        i += 1;
    }
}

/// One plain measurement as delimited text: the header and one row, with
/// a column for each of its keys.
pub fn simple_single(config: &Config, res: &MeasurementResult) -> (doc: String)
    ensures
        exists|keys: Seq<Seq<char>>|
            is_key_list(keys, res.energy_uj@.dom()) && doc@ == header_text(keys, false, false)
                + row_text(
                strings_of(config.cmd@),
                res.energy_uj@,
                res.duration_ms,
                res.exit_code,
                keys,
                None,
                None,
            ),
{
    let keys = sorted_keys(&res.energy_uj);
    let mut doc = String::new();
    write_header(&mut doc, &keys, false, false);
    write_row(&mut doc, &config.cmd, res, &keys, None, None);
    doc
}

/// The plain measurements of a batch as delimited text: nothing where
/// there are none, else the header and a row for each, with the
/// iteration and a column for each key of the first.
pub fn simple_iterations(config: &Config, results: &[(usize, MeasurementResult)]) -> (doc: String)
    ensures
        results@.len() == 0 ==> doc@ == Seq::<char>::empty(),
        results@.len() > 0 ==> exists|keys: Seq<Seq<char>>|
            is_key_list(keys, results@[0].1.energy_uj@.dom()) && doc@ == header_text(
                keys,
                true,
                false,
            ) + iteration_rows(strings_of(config.cmd@), results@, keys, results@.len() as int),
{
    let mut doc = String::new();
    if results.len() == 0 {
        return doc;
    }
    let keys = sorted_keys(&results[0].1.energy_uj);
    write_header(&mut doc, &keys, true, false);
    let ghost head = doc@;
    let ghost k = strings_of(keys@);
    let ghost command = strings_of(config.cmd@);
    let mut i: usize = 0;
    while i < results.len()
        invariant
            i <= results@.len(),
            k == strings_of(keys@),
            command == strings_of(config.cmd@),
            doc@ == head + iteration_rows(command, results@, k, i as int),
        decreases results@.len() - i,
    {
        write_row(&mut doc, &config.cmd, &results[i].1, &keys, Some(results[i].0), None);
        i += 1;
    }
    doc
}

/// The phases of one run as delimited text: nothing where there are
/// none, else the header and a row for each phase, with the phase fields
/// and a column for each key of any phase.
pub fn phases_single(config: &Config, phases: &PhasesResult) -> (doc: String)
    ensures
        phases.phases@.len() == 0 ==> doc@ == Seq::<char>::empty(),
        phases.phases@.len() > 0 ==> exists|keys: Seq<Seq<char>>|
            is_key_list(keys, phase_names(phases.phases@, phases.phases@.len() as int)) && doc@
                == header_text(keys, false, true) + phase_rows(
                strings_of(config.cmd@),
                phases.phases@,
                keys,
                None,
                phases.phases@.len() as int,
            ),
{
    let mut doc = String::new();
    if phases.phases.len() == 0 {
        return doc;
    }
    let keys = phase_keys(&phases.phases);
    write_header(&mut doc, &keys, false, true);
    write_phase_rows(&mut doc, &config.cmd, &phases.phases, &keys, None);
    doc
}

/// The phases of every run of a batch as delimited text: nothing where
/// there are no runs, else the header and a row for each phase of each
/// run, with the iteration, the phase fields and a column for each key
/// of any phase of the first run.
pub fn phases_iterations(config: &Config, results: &[(usize, PhasesResult)]) -> (doc: String)
    ensures
        results@.len() == 0 ==> doc@ == Seq::<char>::empty(),
        results@.len() > 0 ==> exists|keys: Seq<Seq<char>>|
            is_key_list(
                keys,
                phase_names(results@[0].1.phases@, results@[0].1.phases@.len() as int),
            ) && doc@ == header_text(keys, true, true) + phase_iteration_rows(
                strings_of(config.cmd@),
                results@,
                keys,
                results@.len() as int,
            ),
{
    let mut doc = String::new();
    if results.len() == 0 {
        return doc;
    }
    let keys = phase_keys(&results[0].1.phases);
    write_header(&mut doc, &keys, true, true);
    let ghost head = doc@;
    let ghost k = strings_of(keys@);
    let ghost command = strings_of(config.cmd@);
    let mut i: usize = 0;
    while i < results.len()
        invariant
            i <= results@.len(),
            k == strings_of(keys@),
            command == strings_of(config.cmd@),
            doc@ == head + phase_iteration_rows(command, results@, k, i as int),
        decreases results@.len() - i,
    {
        write_phase_rows(&mut doc, &config.cmd, &results[i].1.phases, &keys, Some(results[i].0));
        i += 1;
    }
    doc
}

} // verus!
