//! Phases of a run: the intervals between the start of the command, the
//! tokens detected in its output and its end.

use vstd::prelude::*;
use vstd::string::*;
use crate::config::{clone_text, text_of, Config};
use crate::counter_map::CounterMap;
use crate::errors::{Failure, JouleProfilerError};
use crate::measure::batch::IterationBatch;
use crate::measure::common::{
    build_max_map,
    compute_measurement_from_snapshots,
    max_ranges,
    measured_energy,
    PhaseMeasurement,
    PhasesResult,
};
use crate::measure::pattern::{
    invalid_pattern_text,
    label_of,
    pattern_captures,
    pattern_refusal,
    TokenPattern,
};
use crate::measure::single::{exit_code_of, reported_exit_code};
use crate::rapl::domain::{domains_on, select_domains, RaplDomain};
use crate::rapl::snapshot::EnergySnapshot;
use crate::text::{contains_text, occurs_in};

verus! {

/// A token seen in the output, with the snapshot taken when it was seen.
#[derive(Debug)]
pub struct DetectedToken {
    /// The label of the token.
    pub token: String,
    /// The counters at the moment of detection.
    pub snapshot: EnergySnapshot,
    /// The output line that held the token, counted from one.
    pub line_number: usize,
}

/// The whole milliseconds from `from_us` to `to_us`, both in
/// microseconds; zero where `to_us` is the earlier.
pub open spec fn span_ms(from_us: u128, to_us: u128) -> u128 {
    if to_us >= from_us {
        ((to_us - from_us) / 1000) as u128
    } else {
        0
    }
}

/// The time between two snapshots in milliseconds, never negative.
pub fn duration_between_ms(from: &EnergySnapshot, to: &EnergySnapshot) -> (d: u128)
    ensures
        d == span_ms(from.timestamp_us, to.timestamp_us),
{
    if to.timestamp_us >= from.timestamp_us {
        (to.timestamp_us - from.timestamp_us) / 1000
    } else {
        0
    }
}

/// One interval of a run that is to be measured, between two snapshots,
/// with the name it is reported under and the labels and output lines of
/// its two boundaries.
pub ghost struct PhaseSpan {
    pub name: Seq<char>,
    pub start_token: Seq<char>,
    pub end_token: Seq<char>,
    pub start_line: Option<usize>,
    pub end_line: Option<usize>,
    pub from: EnergySnapshot,
    pub to: EnergySnapshot,
}

/// Whether `phase` is the measurement of `span`.
pub open spec fn is_phase_of(
    phase: PhaseMeasurement,
    span: PhaseSpan,
    domains: Seq<&RaplDomain>,
    max: Map<Seq<char>, u64>,
    exit_code: i32,
) -> bool {
    &&& phase.name@ == span.name
    &&& phase.start_token matches Some(t) && t@ == span.start_token
    &&& phase.end_token matches Some(t) && t@ == span.end_token
    &&& phase.start_line == span.start_line
    &&& phase.end_line == span.end_line
    &&& measured_energy(domains, max, span.from.energies_uj@, span.to.energies_uj@) == Ok::<
        Map<Seq<char>, u64>,
        Failure,
    >(phase.result.energy_uj@)
    &&& phase.result.duration_ms == span_ms(span.from.timestamp_us, span.to.timestamp_us)
    &&& phase.result.exit_code == exit_code
}

/// The failure of the first of `spans` that cannot be measured.
pub open spec fn first_span_fault(
    domains: Seq<&RaplDomain>,
    max: Map<Seq<char>, u64>,
    spans: Seq<PhaseSpan>,
) -> Option<Failure>
    decreases spans.len(),
{
    if spans.len() == 0 {
        None
    } else {
        match first_span_fault(domains, max, spans.drop_last()) {
            Some(fault) => Some(fault),
            None => match measured_energy(
                domains,
                max,
                spans.last().from.energies_uj@,
                spans.last().to.energies_uj@,
            ) {
                Err(fault) => Some(fault),
                Ok(_) => None,
            },
        }
    }
}

/// A failure among the first spans is the failure of the whole list.
pub proof fn lemma_span_fault_stays(
    domains: Seq<&RaplDomain>,
    max: Map<Seq<char>, u64>,
    spans: Seq<PhaseSpan>,
    k: nat,
)
    requires
        k <= spans.len(),
        first_span_fault(domains, max, spans.take(k as int)) is Some,
    ensures
        first_span_fault(domains, max, spans) == first_span_fault(
            domains,
            max,
            spans.take(k as int),
        ),
    decreases spans.len(),
{
    if k == spans.len() {
        assert(spans.take(k as int) =~= spans);
    } else {
        assert(spans.drop_last().take(k as int) =~= spans.take(k as int));
        lemma_span_fault_stays(domains, max, spans.drop_last(), k);
    }
}

/// Whether `r` is what measuring `spans` in order gives: the failure of
/// the first span that cannot be measured, else one phase for each span.
pub open spec fn is_measurement_of(
    r: Result<PhasesResult, JouleProfilerError>,
    spans: Seq<PhaseSpan>,
    domains: Seq<&RaplDomain>,
    max: Map<Seq<char>, u64>,
    exit_code: i32,
) -> bool {
    match first_span_fault(domains, max, spans) {
        Some(fault) => r matches Err(e) && e@ == fault,
        None => r matches Ok(res) && res.phases@.len() == spans.len() && forall|p: int|
            0 <= p < spans.len() ==> is_phase_of(
                #[trigger] res.phases@[p],
                spans[p],
                domains,
                max,
                exit_code,
            ),
    }
}

/// The label of boundary `i` of a run with the detected tokens `tokens`:
/// boundary 0 is the start, the last one the end, and each token is one in
/// between.
pub open spec fn bound_label(tokens: Seq<DetectedToken>, i: int) -> Seq<char> {
    if i <= 0 {
        "START"@
    } else if i <= tokens.len() {
        tokens[i - 1].token@
    } else {
        "END"@
    }
}

/// The output line of boundary `i`: only a token has one.
pub open spec fn bound_line(tokens: Seq<DetectedToken>, i: int) -> Option<usize> {
    if 1 <= i <= tokens.len() {
        Some(tokens[i - 1].line_number)
    } else {
        None
    }
}

/// The snapshot taken at boundary `i`.
pub open spec fn bound_snapshot(
    start: EnergySnapshot,
    end: EnergySnapshot,
    tokens: Seq<DetectedToken>,
    i: int,
) -> EnergySnapshot {
    if i <= 0 {
        start
    } else if i <= tokens.len() {
        tokens[i - 1].snapshot
    } else {
        end
    }
}

/// How many phases a run with `k` detected tokens has.
pub open spec fn phase_count(k: nat) -> nat {
    if k == 0 {
        1
    } else {
        k + 2
    }
}

/// The name of the phase from boundary `from` to boundary `to`.
pub open spec fn span_name(from: Seq<char>, to: Seq<char>) -> Seq<char> {
    from + " -> "@ + to
}

/// Phase `p` of a run: phase 0 is the whole run, and phase `p` behind it
/// reaches from boundary `p - 1` to boundary `p`.
pub open spec fn pattern_span(
    start: EnergySnapshot,
    end: EnergySnapshot,
    tokens: Seq<DetectedToken>,
    p: int,
) -> PhaseSpan {
    if p <= 0 {
        PhaseSpan {
            name: "global (START -> END)"@,
            start_token: "START"@,
            end_token: "END"@,
            start_line: None,
            end_line: None,
            from: start,
            to: end,
        }
    } else {
        PhaseSpan {
            name: span_name(bound_label(tokens, p - 1), bound_label(tokens, p)),
            start_token: bound_label(tokens, p - 1),
            end_token: bound_label(tokens, p),
            start_line: bound_line(tokens, p - 1),
            end_line: bound_line(tokens, p),
            from: bound_snapshot(start, end, tokens, p - 1),
            to: bound_snapshot(start, end, tokens, p),
        }
    }
}

/// All phases of a run with the detected tokens `tokens`.
pub open spec fn pattern_spans(
    start: EnergySnapshot,
    end: EnergySnapshot,
    tokens: Seq<DetectedToken>,
) -> Seq<PhaseSpan> {
    Seq::new(phase_count(tokens.len()), |p: int| pattern_span(start, end, tokens, p))
}

/// The phases behind the first one lie end to end in the order of the
/// boundaries, from the start of the run to its end: each begins with the
/// snapshot that the one before it ended with.
pub proof fn lemma_phases_follow_the_boundaries(
    start: EnergySnapshot,
    end: EnergySnapshot,
    tokens: Seq<DetectedToken>,
)
    requires
        tokens.len() > 0,
    ensures
        pattern_spans(start, end, tokens).len() == tokens.len() + 2,
        pattern_spans(start, end, tokens)[0].from == start,
        pattern_spans(start, end, tokens)[0].to == end,
        pattern_spans(start, end, tokens)[1].from == start,
        pattern_spans(start, end, tokens).last().to == end,
        forall|p: int|
            1 <= p <= tokens.len() ==> (#[trigger] pattern_spans(start, end, tokens)[p]).to
                == pattern_spans(start, end, tokens)[p + 1].from && pattern_spans(
                start,
                end,
                tokens,
            )[p].to == tokens[p - 1].snapshot,
{
}

/// Measures one span and names the result.
fn measure_phase(
    domains: &[&RaplDomain],
    max_map: &CounterMap,
    name: String,
    start_token: &str,
    end_token: &str,
    start_line: Option<usize>,
    end_line: Option<usize>,
    from: &EnergySnapshot,
    to: &EnergySnapshot,
    exit_code: i32,
) -> (r: Result<PhaseMeasurement, JouleProfilerError>)
    ensures
        match measured_energy(domains@, max_map@, from.energies_uj@, to.energies_uj@) {
            Err(fault) => r matches Err(e) && e@ == fault,
            Ok(_) => r matches Ok(phase) && is_phase_of(
                phase,
                PhaseSpan {
                    name: name@,
                    start_token: start_token@,
                    end_token: end_token@,
                    start_line,
                    end_line,
                    from: *from,
                    to: *to,
                },
                domains@,
                max_map@,
                exit_code,
            ),
        },
{
    let duration_ms = duration_between_ms(from, to);
    match compute_measurement_from_snapshots(domains, max_map, from, to, duration_ms, exit_code) {
        Err(e) => Err(e),
        Ok(result) => Ok(
            PhaseMeasurement {
                name,
                start_token: Some(start_token.to_owned()),
                end_token: Some(end_token.to_owned()),
                start_line,
                end_line,
                result,
            },
        ),
    }
}

fn name_of_span(from: &str, to: &str) -> (name: String)
    ensures
        name@ == span_name(from@, to@),
{
    let mut name = String::from_str(from);
    name.append(" -> ");
    name.append(to);
    name
}

/// The phases of a run from the snapshot at its start, the snapshot at its
/// end and the tokens detected in between.
///
/// The first phase is the whole run. Where there are tokens, a phase
/// follows for each interval between neighbouring boundaries, in the order
/// of detection. The first phase that cannot be measured fails the whole.
pub fn assemble_phases(
    domains: &[&RaplDomain],
    max_map: &CounterMap,
    start: &EnergySnapshot,
    end: &EnergySnapshot,
    tokens: &Vec<DetectedToken>,
    exit_code: i32,
) -> (r: Result<PhasesResult, JouleProfilerError>)
    ensures
        is_measurement_of(r, pattern_spans(*start, *end, tokens@), domains@, max_map@, exit_code),
        r matches Ok(res) ==> res.phases@.len() == (if tokens@.len() == 0 {
            1
        } else {
            tokens@.len() + 2
        }),
{
    let ghost spans = pattern_spans(*start, *end, tokens@);
    let ghost doms = domains@;
    let ghost max = max_map@;
    let k = tokens.len();
    let mut phases: Vec<PhaseMeasurement> = Vec::new();
    proof {
        assert(spans.take(1).drop_last() =~= Seq::<PhaseSpan>::empty());
        assert(first_span_fault(doms, max, Seq::<PhaseSpan>::empty()) is None);
        lemma_span_fault_stays_or_none(doms, max, spans, 1);
    }
    let global = match measure_phase(
        domains,
        max_map,
        String::from_str("global (START -> END)"),
        "START",
        "END",
        None,
        None,
        start,
        end,
        exit_code,
    ) {
        Ok(phase) => phase,
        Err(e) => {
            return Err(e);
        },
    };
    phases.push(global);
    if k == 0 {
        proof {
            assert(spans.take(1) =~= spans);
        }
        return Ok(PhasesResult { phases });
    }
    let mut i: usize = 0;
    while i < k
        invariant
            i <= k,
            k == tokens@.len(),
            k > 0,
            spans == pattern_spans(*start, *end, tokens@),
            doms == domains@,
            max == max_map@,
            phases@.len() == i + 1,
            first_span_fault(doms, max, spans.take(i + 1)) is None,
            forall|p: int|
                0 <= p < i + 1 ==> is_phase_of(#[trigger] phases@[p], spans[p], doms, max, exit_code),
        decreases k - i,
    {
        proof {
            assert(spans.take(i + 2).drop_last() =~= spans.take(i + 1));
            lemma_span_fault_stays_or_none(doms, max, spans, (i + 2) as nat);
        }
        let to_token = &tokens[i];
        let measured = if i == 0 {
            measure_phase(
                domains,
                max_map,
                name_of_span("START", to_token.token.as_str()),
                "START",
                to_token.token.as_str(),
                None,
                Some(to_token.line_number),
                start,
                &to_token.snapshot,
                exit_code,
            )
        } else {
            let from_token = &tokens[i - 1];
            measure_phase(
                domains,
                max_map,
                name_of_span(from_token.token.as_str(), to_token.token.as_str()),
                from_token.token.as_str(),
                to_token.token.as_str(),
                Some(from_token.line_number),
                Some(to_token.line_number),
                &from_token.snapshot,
                &to_token.snapshot,
                exit_code,
            )
        };
        match measured {
            Ok(phase) => {
                phases.push(phase);
            },
            Err(e) => {
                return Err(e);
            },
        }
        i += 1;
    }
    let last_token = &tokens[k - 1];
    match measure_phase(
        domains,
        max_map,
        name_of_span(last_token.token.as_str(), "END"),
        last_token.token.as_str(),
        "END",
        Some(last_token.line_number),
        None,
        &last_token.snapshot,
        end,
        exit_code,
    ) {
        Ok(phase) => {
            phases.push(phase);
        },
        Err(e) => {
            return Err(e);
        },
    }
    Ok(PhasesResult { phases })
}

/// A failure among the first `k` spans is the failure of the whole list;
/// this form asks nothing of the first `k` spans.
proof fn lemma_span_fault_stays_or_none(
    domains: Seq<&RaplDomain>,
    max: Map<Seq<char>, u64>,
    spans: Seq<PhaseSpan>,
    k: nat,
)
    requires
        k <= spans.len(),
    ensures
        first_span_fault(domains, max, spans.take(k as int)) is Some ==> first_span_fault(
            domains,
            max,
            spans,
        ) == first_span_fault(domains, max, spans.take(k as int)),
{
    if first_span_fault(domains, max, spans.take(k as int)) is Some {
        lemma_span_fault_stays(domains, max, spans, k);
    }
}

/// The span from the start of the run to the first anchor.
pub open spec fn span_before(start: EnergySnapshot, hit: DetectedToken) -> PhaseSpan {
    PhaseSpan {
        name: span_name("START"@, hit.token@),
        start_token: "START"@,
        end_token: hit.token@,
        start_line: None,
        end_line: Some(hit.line_number),
        from: start,
        to: hit.snapshot,
    }
}

/// The span between the two anchors.
pub open spec fn span_between(first: DetectedToken, second: DetectedToken) -> PhaseSpan {
    PhaseSpan {
        name: span_name(first.token@, second.token@),
        start_token: first.token@,
        end_token: second.token@,
        start_line: Some(first.line_number),
        end_line: Some(second.line_number),
        from: first.snapshot,
        to: second.snapshot,
    }
}

/// The span from the second anchor to the end of the run.
pub open spec fn span_after(hit: DetectedToken, end: EnergySnapshot) -> PhaseSpan {
    PhaseSpan {
        name: span_name(hit.token@, "END"@),
        start_token: hit.token@,
        end_token: "END"@,
        start_line: Some(hit.line_number),
        end_line: None,
        from: hit.snapshot,
        to: end,
    }
}

/// The span before the start anchor, where that was seen.
pub open spec fn spans_before(start: EnergySnapshot, start_hit: Option<DetectedToken>) -> Seq<
    PhaseSpan,
> {
    match start_hit {
        Some(s) => seq![span_before(start, s)],
        None => Seq::<PhaseSpan>::empty(),
    }
}

/// The span between the anchors, where both were seen.
pub open spec fn spans_between(
    start_hit: Option<DetectedToken>,
    end_hit: Option<DetectedToken>,
) -> Seq<PhaseSpan> {
    match (start_hit, end_hit) {
        (Some(s), Some(e)) => seq![span_between(s, e)],
        _ => Seq::<PhaseSpan>::empty(),
    }
}

/// The span behind the end anchor, where that was seen.
pub open spec fn spans_after(end_hit: Option<DetectedToken>, end: EnergySnapshot) -> Seq<
    PhaseSpan,
> {
    match end_hit {
        Some(e) => seq![span_after(e, end)],
        None => Seq::<PhaseSpan>::empty(),
    }
}

/// The phases of a run that is delimited by two fixed anchors, of which
/// each may have been seen or not: the whole run; the time before the
/// start anchor, where it was seen; the time between the anchors, where
/// both were seen; the time behind the end anchor, where it was seen.
pub open spec fn anchor_spans(
    start: EnergySnapshot,
    end: EnergySnapshot,
    start_hit: Option<DetectedToken>,
    end_hit: Option<DetectedToken>,
) -> Seq<PhaseSpan> {
    seq![pattern_span(start, end, Seq::<DetectedToken>::empty(), 0)] + spans_before(
        start,
        start_hit,
    ) + spans_between(start_hit, end_hit) + spans_after(end_hit, end)
}

/// Whether the end anchor was seen at an earlier time than the start
/// anchor.
pub open spec fn anchors_inverted(
    start_hit: Option<DetectedToken>,
    end_hit: Option<DetectedToken>,
) -> bool {
    start_hit matches Some(s) && end_hit matches Some(e) && e.snapshot.timestamp_us
        < s.snapshot.timestamp_us
}

/// The phases of a run that is delimited by two fixed anchors.
///
/// A run whose end anchor was seen before its start anchor fails, and
/// nothing is measured. A phase that rests on an anchor that was never
/// seen is left out.
pub fn assemble_anchor_phases(
    domains: &[&RaplDomain],
    max_map: &CounterMap,
    start: &EnergySnapshot,
    end: &EnergySnapshot,
    start_hit: &Option<DetectedToken>,
    end_hit: &Option<DetectedToken>,
    exit_code: i32,
) -> (r: Result<PhasesResult, JouleProfilerError>)
    ensures
        anchors_inverted(*start_hit, *end_hit) ==> (r matches Err(e) && e@
            == Failure::InvalidTokenOrder {
            start: start_hit->0.token@,
            end: end_hit->0.token@,
        }),
        !anchors_inverted(*start_hit, *end_hit) ==> is_measurement_of(
            r,
            anchor_spans(*start, *end, *start_hit, *end_hit),
            domains@,
            max_map@,
            exit_code,
        ),
{
    let ghost spans = anchor_spans(*start, *end, *start_hit, *end_hit);
    let ghost doms = domains@;
    let ghost max = max_map@;
    match (start_hit, end_hit) {
        (Some(s), Some(e)) => {
            if e.snapshot.timestamp_us < s.snapshot.timestamp_us {
                return Err(
                    JouleProfilerError::InvalidTokenOrder {
                        start: s.token.clone(),
                        end: e.token.clone(),
                    },
                );
            }
        },
        _ => {},
    }
    let ghost whole = seq![pattern_span(*start, *end, Seq::<DetectedToken>::empty(), 0)];
    let ghost before = spans_before(*start, *start_hit);
    let ghost between = spans_between(*start_hit, *end_hit);
    let mut phases: Vec<PhaseMeasurement> = Vec::new();
    proof {
        assert(first_span_fault(doms, max, Seq::<PhaseSpan>::empty()) is None);
        assert(whole.drop_last() =~= Seq::<PhaseSpan>::empty());
        assert(spans.take(1) =~= whole);
        lemma_span_fault_stays_or_none(doms, max, spans, 1);
    }
    match measure_phase(
        domains,
        max_map,
        String::from_str("global (START -> END)"),
        "START",
        "END",
        None,
        None,
        start,
        end,
        exit_code,
    ) {
        Ok(phase) => {
            phases.push(phase);
        },
        Err(e) => {
            return Err(e);
        },
    }
    let ghost done1 = whole;
    let ghost done2 = done1 + before;
    proof {
        assert(spans.take(done2.len() as int) =~= done2);
        lemma_span_fault_stays_or_none(doms, max, spans, done2.len());
        if before.len() > 0 {
            assert(done2.drop_last() =~= done1);
        }
    }
    match start_hit {
        Some(s) => {
            match measure_phase(
                domains,
                max_map,
                name_of_span("START", s.token.as_str()),
                "START",
                s.token.as_str(),
                None,
                Some(s.line_number),
                start,
                &s.snapshot,
                exit_code,
            ) {
                Ok(phase) => {
                    phases.push(phase);
                },
                Err(e) => {
                    return Err(e);
                },
            }
        },
        None => {},
    }
    let ghost done3 = done2 + between;
    proof {
        assert(spans.take(done3.len() as int) =~= done3);
        lemma_span_fault_stays_or_none(doms, max, spans, done3.len());
        if between.len() > 0 {
            assert(done3.drop_last() =~= done2);
        }
    }
    match (start_hit, end_hit) {
        (Some(s), Some(e)) => {
            match measure_phase(
                domains,
                max_map,
                name_of_span(s.token.as_str(), e.token.as_str()),
                s.token.as_str(),
                e.token.as_str(),
                Some(s.line_number),
                Some(e.line_number),
                &s.snapshot,
                &e.snapshot,
                exit_code,
            ) {
                Ok(phase) => {
                    phases.push(phase);
                },
                Err(err) => {
                    return Err(err);
                },
            }
        },
        _ => {},
    }
    match end_hit {
        Some(e) => {
            match measure_phase(
                domains,
                max_map,
                name_of_span(e.token.as_str(), "END"),
                e.token.as_str(),
                "END",
                Some(e.line_number),
                None,
                &e.snapshot,
                end,
                exit_code,
            ) {
                Ok(phase) => {
                    phases.push(phase);
                },
                Err(err) => {
                    return Err(err);
                },
            }
        },
        None => {},
    }
    Ok(PhasesResult { phases })
}

/// How phase boundaries are recognised in the output.
pub enum TokenMatcher {
    /// Every match of a pattern is a boundary.
    Pattern(TokenPattern),
    /// The first line that holds the start text and the first line that
    /// holds the end text are the two boundaries.
    Anchors { start: Option<String>, end: Option<String> },
}

/// A boundary that was recognised and waits for its snapshot.
pub enum PendingToken {
    /// A match of the pattern, with its label.
    Matched(String),
    /// The first sight of the start anchor, of the end anchor, or of both
    /// in one line.
    Anchors { start: bool, end: bool },
}

/// What a run has gathered since its first snapshot.
pub struct Detection {
    /// The snapshot taken before the command was started.
    pub start: EnergySnapshot,
    /// The matches of the pattern, in the order of their detection.
    pub tokens: Vec<DetectedToken>,
    /// The first sight of the start anchor.
    pub start_hit: Option<DetectedToken>,
    /// The first sight of the end anchor.
    pub end_hit: Option<DetectedToken>,
    /// The number of output lines seen.
    pub lines: usize,
}

/// How far a run by phases has come.
pub enum PhaseStage {
    /// The snapshot before the command is awaited.
    AwaitStart,
    /// The start of the command is awaited.
    Spawning(Detection),
    /// The next line of output is awaited.
    Streaming(Detection),
    /// The snapshot for a boundary just recognised is awaited.
    AwaitToken(Detection, PendingToken),
    /// The end of the command is awaited.
    AwaitExit(Detection),
    /// The snapshot behind the command is awaited; the exit code is kept.
    AwaitEnd(Detection, i32),
}

/// What the caller is to do next.
#[derive(Debug, Clone, Copy, PartialEq, Eq, Structural)]
pub enum PhaseRequest {
    /// Read all counters of the run and hand back the snapshot.
    ReadSnapshot,
    /// Start the command with its output captured.
    Spawn,
    /// Take the next line of the command's output, pass it on to where
    /// the output goes, and hand it back; or report that there is none.
    NextLine,
    /// Wait for the command to end and hand back its exit code.
    Wait,
}

/// What the caller has done.
pub enum PhaseEvent {
    /// The counters were read.
    Snapshot(EnergySnapshot),
    /// The command was started.
    Started,
    /// The command wrote this line.
    Line(String),
    /// The command's output has ended.
    OutputEnded,
    /// The command has ended, with its exit code if it ended by itself.
    Exited(Option<i32>),
    /// What was asked for could not be done.
    Failed(JouleProfilerError),
}

/// A run by phases that is under way.
pub struct PhaseRun<'a> {
    pub domains: Vec<&'a RaplDomain>,
    pub max_map: CounterMap,
    pub matcher: TokenMatcher,
    pub stage: PhaseStage,
}

/// What a run has come to when an event has been taken in.
pub enum PhaseStep<'a> {
    /// The run goes on.
    Continue(PhaseRun<'a>),
    /// The run is complete.
    Finished(PhasesResult),
    /// The run has failed.
    Failed(JouleProfilerError),
}

/// What the caller is to do at `stage`.
pub open spec fn phase_request_at(stage: PhaseStage) -> PhaseRequest {
    match stage {
        PhaseStage::AwaitStart => PhaseRequest::ReadSnapshot,
        PhaseStage::Spawning(_) => PhaseRequest::Spawn,
        PhaseStage::Streaming(_) => PhaseRequest::NextLine,
        PhaseStage::AwaitToken(_, _) => PhaseRequest::ReadSnapshot,
        PhaseStage::AwaitExit(_) => PhaseRequest::Wait,
        PhaseStage::AwaitEnd(_, _) => PhaseRequest::ReadSnapshot,
    }
}

/// Whether `next` reads the same counters and recognises boundaries in
/// the same way as `run`.
pub open spec fn same_setup(next: PhaseRun, run: PhaseRun) -> bool {
    next.domains == run.domains && next.max_map == run.max_map && next.matcher == run.matcher
}

/// Whether `next` is `run` at the stage `stage`.
pub open spec fn is_run_at(next: PhaseRun, run: PhaseRun, stage: PhaseStage) -> bool {
    same_setup(next, run) && next.stage == stage
}

/// The count of lines behind one more line. It stops at the largest
/// number.
pub open spec fn one_more(lines: usize) -> usize {
    if lines < usize::MAX {
        (lines + 1) as usize
    } else {
        lines
    }
}

/// `d` with one more line seen.
pub open spec fn with_line(d: Detection) -> Detection {
    Detection {
        start: d.start,
        tokens: d.tokens,
        start_hit: d.start_hit,
        end_hit: d.end_hit,
        lines: one_more(d.lines),
    }
}

/// Whether `hit` is the sight of the anchor `label` at line `line` with
/// the counters as in `snapshot`.
pub open spec fn is_hit(
    hit: Option<DetectedToken>,
    label: Option<String>,
    snapshot: EnergySnapshot,
    line: usize,
) -> bool {
    hit matches Some(h) && label matches Some(l) && h.token@ == l@ && h.snapshot.energies_uj@
        == snapshot.energies_uj@ && h.snapshot.timestamp_us == snapshot.timestamp_us
        && h.line_number == line
}

/// Whether `after` is `before` with the boundary `pending` recorded
/// under the snapshot `snapshot`.
///
/// A match of the pattern goes behind the earlier ones, with the number
/// of the line just seen. An anchor is recorded only where it had not
/// been seen, so that its first sight stays.
pub open spec fn is_recorded(
    after: Detection,
    before: Detection,
    pending: PendingToken,
    snapshot: EnergySnapshot,
    matcher: TokenMatcher,
) -> bool {
    match pending {
        PendingToken::Matched(label) => {
            &&& after.start == before.start
            &&& after.tokens@ == before.tokens@.push(
                DetectedToken { token: label, snapshot, line_number: before.lines },
            )
            &&& after.start_hit == before.start_hit
            &&& after.end_hit == before.end_hit
            &&& after.lines == before.lines
        },
        PendingToken::Anchors { start, end } => {
            &&& after.start == before.start
            &&& after.tokens == before.tokens
            &&& after.lines == before.lines
            &&& if start && before.start_hit is None && matcher is Anchors
                && matcher->start is Some {
                is_hit(after.start_hit, matcher->start, snapshot, before.lines)
            } else {
                after.start_hit == before.start_hit
            }
            &&& if end && before.end_hit is None && matcher is Anchors && matcher->end is Some {
                is_hit(after.end_hit, matcher->end, snapshot, before.lines)
            } else {
                after.end_hit == before.end_hit
            }
        },
    }
}

/// Whether the anchor `anchor` is seen for the first time in `line`,
/// `hit` being its first sight so far.
pub open spec fn anchor_first_seen(
    anchor: Option<String>,
    hit: Option<DetectedToken>,
    line: Seq<char>,
) -> bool {
    hit is None && (anchor matches Some(t) && occurs_in(t@, line))
}

/// Whether `step` is what `run`, which awaits a line and has gathered
/// `d`, comes to by a line in which the pattern found `label`.
pub open spec fn follows_scanned_line(
    run: PhaseRun,
    d: Detection,
    label: Option<String>,
    step: PhaseStep,
) -> bool {
    match label {
        Some(l) => step matches PhaseStep::Continue(next) && is_run_at(
            next,
            run,
            PhaseStage::AwaitToken(with_line(d), PendingToken::Matched(l)),
        ),
        None => step matches PhaseStep::Continue(next) && is_run_at(
            next,
            run,
            PhaseStage::Streaming(with_line(d)),
        ),
    }
}

/// Whether `step` is what `run`, which awaits a line and has gathered
/// `d`, comes to by the line `line`.
///
/// The line is counted. Under a pattern, a match asks for a snapshot
/// under the label of the match. Under anchors, the first sight of either
/// anchor asks for a snapshot. Any other line asks for the next one.
pub open spec fn follows_line(run: PhaseRun, d: Detection, line: Seq<char>, step: PhaseStep) -> bool {
    match run.matcher {
        TokenMatcher::Pattern(p) => match pattern_captures(p@, line) {
            Some(c) => {
                &&& step is Continue
                &&& same_setup(step->Continue_0, run)
                &&& step->Continue_0.stage matches PhaseStage::AwaitToken(
                    d2,
                    PendingToken::Matched(l),
                ) && d2 == with_line(d) && l@ == label_of(c)
            },
            None => step matches PhaseStep::Continue(next) && is_run_at(
                next,
                run,
                PhaseStage::Streaming(with_line(d)),
            ),
        },
        TokenMatcher::Anchors { start, end } => {
            let sees_start = anchor_first_seen(start, d.start_hit, line);
            let sees_end = anchor_first_seen(end, d.end_hit, line);
            if sees_start || sees_end {
                step matches PhaseStep::Continue(next) && is_run_at(
                    next,
                    run,
                    PhaseStage::AwaitToken(
                        with_line(d),
                        PendingToken::Anchors { start: sees_start, end: sees_end },
                    ),
                )
            } else {
                step matches PhaseStep::Continue(next) && is_run_at(
                    next,
                    run,
                    PhaseStage::Streaming(with_line(d)),
                )
            }
        },
    }
}

/// Whether `step` is what `run`, which awaits its last snapshot and has
/// gathered `d`, comes to by the snapshot `end`: under a pattern the
/// phases of all detected tokens, under anchors the phases of the anchors
/// seen, or the failure to assemble them.
pub open spec fn follows_end(
    run: PhaseRun,
    d: Detection,
    exit_code: i32,
    end: EnergySnapshot,
    step: PhaseStep,
) -> bool {
    let outcome: Result<PhasesResult, JouleProfilerError> = match step {
        PhaseStep::Finished(res) => Ok(res),
        PhaseStep::Failed(e) => Err(e),
        PhaseStep::Continue(_) => Err(JouleProfilerError::NoDomains),
    };
    &&& !(step is Continue)
    &&& match run.matcher {
        TokenMatcher::Pattern(_) => is_measurement_of(
            outcome,
            pattern_spans(d.start, end, d.tokens@),
            run.domains@,
            run.max_map@,
            exit_code,
        ),
        TokenMatcher::Anchors { .. } => if anchors_inverted(d.start_hit, d.end_hit) {
            step matches PhaseStep::Failed(e) && e@ == Failure::InvalidTokenOrder {
                start: d.start_hit->0.token@,
                end: d.end_hit->0.token@,
            }
        } else {
            is_measurement_of(
                outcome,
                anchor_spans(d.start, end, d.start_hit, d.end_hit),
                run.domains@,
                run.max_map@,
                exit_code,
            )
        },
    }
}

/// What a run has gathered when only its first snapshot is there.
pub open spec fn is_fresh(d: Detection, start: EnergySnapshot) -> bool {
    d.start == start && d.tokens@ == Seq::<DetectedToken>::empty() && d.start_hit is None
        && d.end_hit is None && d.lines == 0
}

/// Whether `step` is what `run` comes to by `event`.
///
/// A failure ends the run. Else each stage takes the event that answers
/// its request and moves on: the first snapshot, the start of the
/// command, lines until the output ends, a snapshot for every boundary
/// recognised, the end of the command, the last snapshot. An event that
/// does not answer the request of the stage changes nothing.
pub open spec fn phase_follows(run: PhaseRun, event: PhaseEvent, step: PhaseStep) -> bool {
    match event {
        PhaseEvent::Failed(e) => step == PhaseStep::Failed(e),
        PhaseEvent::Snapshot(s) => match run.stage {
            PhaseStage::AwaitStart => {
                &&& step is Continue
                &&& same_setup(step->Continue_0, run)
                &&& step->Continue_0.stage matches PhaseStage::Spawning(d) && is_fresh(d, s)
            },
            PhaseStage::AwaitToken(d, pending) => {
                &&& step is Continue
                &&& same_setup(step->Continue_0, run)
                &&& step->Continue_0.stage matches PhaseStage::Streaming(d2) && is_recorded(
                    d2,
                    d,
                    pending,
                    s,
                    run.matcher,
                )
            },
            PhaseStage::AwaitEnd(d, exit_code) => follows_end(run, d, exit_code, s, step),
            _ => step == PhaseStep::Continue(run),
        },
        PhaseEvent::Started => match run.stage {
            PhaseStage::Spawning(d) => step matches PhaseStep::Continue(next) && is_run_at(
                next,
                run,
                PhaseStage::Streaming(d),
            ),
            _ => step == PhaseStep::Continue(run),
        },
        PhaseEvent::Line(text) => match run.stage {
            PhaseStage::Streaming(d) => follows_line(run, d, text@, step),
            _ => step == PhaseStep::Continue(run),
        },
        PhaseEvent::OutputEnded => match run.stage {
            PhaseStage::Streaming(d) => step matches PhaseStep::Continue(next) && is_run_at(
                next,
                run,
                PhaseStage::AwaitExit(d),
            ),
            _ => step == PhaseStep::Continue(run),
        },
        PhaseEvent::Exited(code) => match run.stage {
            PhaseStage::AwaitExit(d) => step matches PhaseStep::Continue(next) && is_run_at(
                next,
                run,
                PhaseStage::AwaitEnd(d, exit_code_of(code)),
            ),
            _ => step == PhaseStep::Continue(run),
        },
    }
}

/// Whether `m` recognises boundaries by the pattern of the text `source`.
pub open spec fn is_pattern_of(m: TokenMatcher, source: Seq<char>) -> bool {
    m matches TokenMatcher::Pattern(p) && p@ == source
}

/// Whether `m` recognises boundaries by the anchors `start` and `end`.
pub open spec fn is_anchors_of(
    m: TokenMatcher,
    start: Option<Seq<char>>,
    end: Option<Seq<char>>,
) -> bool {
    m matches TokenMatcher::Anchors { start: s, end: e } && text_of(s) == start && text_of(e)
        == end
}

impl TokenMatcher {
    /// The way to recognise boundaries that `config` asks for, given
    /// what became of compiling its pattern, or nothing where it has
    /// none: the pattern or its failure; else the anchors where one is
    /// set; else the failure to find any token.
    pub fn checked(config: &Config, compiled: Option<Result<TokenPattern, JouleProfilerError>>) -> (r:
        Result<TokenMatcher, JouleProfilerError>)
        ensures
            match compiled {
                Some(Ok(p)) => r == Ok::<TokenMatcher, JouleProfilerError>(TokenMatcher::Pattern(p)),
                Some(Err(e)) => r == Err::<TokenMatcher, JouleProfilerError>(e),
                None => if config.token_start is Some || config.token_end is Some {
                    r matches Ok(m) && is_anchors_of(
                        m,
                        text_of(config.token_start),
                        text_of(config.token_end),
                    )
                } else {
                    r matches Err(e) && e@ == Failure::TokenNotFound(
                        "token_pattern not configured"@,
                    )
                },
            },
    {
        match compiled {
            Some(Ok(p)) => Ok(TokenMatcher::Pattern(p)),
            Some(Err(e)) => Err(e),
            None => {
                if config.token_start.is_some() || config.token_end.is_some() {
                    Ok(
                        TokenMatcher::Anchors {
                            start: clone_text(&config.token_start),
                            end: clone_text(&config.token_end),
                        },
                    )
                } else {
                    Err(JouleProfilerError::token_not_found("token_pattern not configured"))
                }
            },
        }
    }

    /// The way to recognise boundaries that `config` asks for. Where
    /// `config` has a pattern, the pattern decides: compiled it is the
    /// matcher, refused it is the failure.
    pub fn from_config(config: &Config) -> (r: Result<TokenMatcher, JouleProfilerError>)
        ensures
            match config.token_pattern {
                Some(source) => match pattern_refusal(source@) {
                    None => r matches Ok(m) && is_pattern_of(m, source@),
                    Some(reason) => r matches Err(e) && e@ == Failure::InvalidPattern(
                        invalid_pattern_text(source@, reason),
                    ),
                },
                None => if config.token_start is Some || config.token_end is Some {
                    r matches Ok(m) && is_anchors_of(
                        m,
                        text_of(config.token_start),
                        text_of(config.token_end),
                    )
                } else {
                    r matches Err(e) && e@ == Failure::TokenNotFound(
                        "token_pattern not configured"@,
                    )
                },
            },
    {
        let compiled = match &config.token_pattern {
            Some(source) => Some(TokenPattern::compile(source.as_str())),
            None => None,
        };
        TokenMatcher::checked(config, compiled)
    }
}

/// Whether `run` is a run on the counters of `domains` that belong to
/// one of `sockets`, with their ranges, of which nothing has happened
/// yet.
pub open spec fn is_prepared(run: PhaseRun, domains: Seq<RaplDomain>, sockets: Seq<u32>) -> bool {
    run.domains@ == domains_on(domains, sockets) && run.max_map@ == max_ranges(run.domains@)
        && run.stage == PhaseStage::AwaitStart
}

/// Prepares one run by phases with the matcher `matcher`, or hands on
/// the failure to get one.
///
/// Nothing is read and nothing is run here. A run with no command is
/// refused first, then one without a matcher, then one with no counter
/// on the chosen sockets.
pub fn begin_phases<'a>(
    config: &Config,
    domains: &'a [RaplDomain],
    matcher: Result<TokenMatcher, JouleProfilerError>,
) -> (r: Result<PhaseRun<'a>, JouleProfilerError>)
    ensures
        config.cmd@.len() == 0 ==> (r matches Err(e) && e@ == Failure::NoCommand),
        config.cmd@.len() > 0 ==> match matcher {
            Err(refused) => r == Err::<PhaseRun<'a>, JouleProfilerError>(refused),
            Ok(m) => if domains_on(domains@, config.sockets@).len() == 0 {
                r matches Err(e) && e@ == Failure::NoDomains
            } else {
                r matches Ok(run) && is_prepared(run, domains@, config.sockets@) && run.matcher
                    == m
            },
        },
{
    if config.cmd.len() == 0 {
        return Err(JouleProfilerError::NoCommand);
    }
    let matcher = match matcher {
        Ok(m) => m,
        Err(e) => {
            return Err(e);
        },
    };
    let filtered = select_domains(domains, &config.sockets);
    if filtered.len() == 0 {
        return Err(JouleProfilerError::NoDomains);
    }
    let max_map = build_max_map(filtered.as_slice());
    Ok(PhaseRun { domains: filtered, max_map, matcher, stage: PhaseStage::AwaitStart })
}

/// Prepares one run of the command of `config` by phases, on the
/// counters of `domains` that belong to the sockets of `config`.
///
/// A run with no command is refused; then one that names no way to
/// recognise boundaries, or a pattern that does not compile; then one
/// with no counter on the chosen sockets.
pub fn measure_phases_once<'a>(config: &Config, domains: &'a [RaplDomain]) -> (r: Result<
    PhaseRun<'a>,
    JouleProfilerError,
>)
    ensures
        config.cmd@.len() == 0 ==> (r matches Err(e) && e@ == Failure::NoCommand),
        config.cmd@.len() > 0 ==> match config.token_pattern {
            None => if config.token_start is None && config.token_end is None {
                r matches Err(e) && e@ == Failure::TokenNotFound("token_pattern not configured"@)
            } else if domains_on(domains@, config.sockets@).len() == 0 {
                r matches Err(e) && e@ == Failure::NoDomains
            } else {
                r matches Ok(run) && is_prepared(run, domains@, config.sockets@) && is_anchors_of(
                    run.matcher,
                    text_of(config.token_start),
                    text_of(config.token_end),
                )
            },
            Some(source) => match pattern_refusal(source@) {
                Some(reason) => r matches Err(e) && e@ == Failure::InvalidPattern(
                    invalid_pattern_text(source@, reason),
                ),
                None => if domains_on(domains@, config.sockets@).len() == 0 {
                    r matches Err(e) && e@ == Failure::NoDomains
                } else {
                    r matches Ok(run) && is_prepared(run, domains@, config.sockets@)
                        && is_pattern_of(run.matcher, source@)
                },
            },
        },
{
    if config.cmd.len() == 0 {
        return Err(JouleProfilerError::NoCommand);
    }
    let matcher = TokenMatcher::from_config(config);
    begin_phases(config, domains, matcher)
}

/// Prepares `iterations` runs by phases, one after the other. A batch of
/// no iterations is refused, and nothing is prepared.
pub fn measure_phases_iterations<'a>(
    config: &'a Config,
    domains: &'a [RaplDomain],
    iterations: usize,
) -> (r: Result<IterationBatch<'a, PhasesResult>, JouleProfilerError>)
    ensures
        iterations == 0 ==> (r matches Err(e) && e@ == Failure::InvalidIterations(0)),
        iterations > 0 ==> (r matches Ok(b) && b.config == config && b.domains == domains
            && b.total == iterations && b.done@ == Seq::<(usize, PhasesResult)>::empty()),
{
    IterationBatch::begin(config, domains, iterations)
}

impl<'a> PhaseRun<'a> {
    /// What the caller is to do next.
    pub fn request(&self) -> (r: PhaseRequest)
        ensures
            r == phase_request_at(self.stage),
    {
        match &self.stage {
            PhaseStage::AwaitStart => PhaseRequest::ReadSnapshot,
            PhaseStage::Spawning(_) => PhaseRequest::Spawn,
            PhaseStage::Streaming(_) => PhaseRequest::NextLine,
            PhaseStage::AwaitToken(_, _) => PhaseRequest::ReadSnapshot,
            PhaseStage::AwaitExit(_) => PhaseRequest::Wait,
            PhaseStage::AwaitEnd(_, _) => PhaseRequest::ReadSnapshot,
        }
    }

    /// Takes in a line of output in which the pattern found `label`,
    /// for a run that awaits a line and has gathered `d`.
    pub fn line_scanned(
        domains: Vec<&'a RaplDomain>,
        max_map: CounterMap,
        matcher: TokenMatcher,
        d: Detection,
        label: Option<String>,
    ) -> (step: PhaseStep<'a>)
        ensures
            follows_scanned_line(
                PhaseRun { domains, max_map, matcher, stage: PhaseStage::Streaming(d) },
                d,
                label,
                step,
            ),
    {
        let counted = Detection {
            start: d.start,
            tokens: d.tokens,
            start_hit: d.start_hit,
            end_hit: d.end_hit,
            lines: d.lines.saturating_add(1),
        };
        match label {
            Some(l) => PhaseStep::Continue(
                PhaseRun {
                    domains,
                    max_map,
                    matcher,
                    stage: PhaseStage::AwaitToken(counted, PendingToken::Matched(l)),
                },
            ),
            None => PhaseStep::Continue(
                PhaseRun { domains, max_map, matcher, stage: PhaseStage::Streaming(counted) },
            ),
        }
    }

    /// Takes in a line of output.
    fn take_line(
        domains: Vec<&'a RaplDomain>,
        max_map: CounterMap,
        matcher: TokenMatcher,
        d: Detection,
        text: String,
    ) -> (step: PhaseStep<'a>)
        ensures
            follows_line(
                PhaseRun { domains, max_map, matcher, stage: PhaseStage::Streaming(d) },
                d,
                text@,
                step,
            ),
    {
        match &matcher {
            TokenMatcher::Pattern(p) => {
                let label = p.find_label(text.as_str());
                PhaseRun::line_scanned(domains, max_map, matcher, d, label)
            },
            TokenMatcher::Anchors { start, end } => {
                let sees_start = d.start_hit.is_none() && match start {
                    Some(t) => contains_text(text.as_str(), t.as_str()),
                    None => false,
                };
                let sees_end = d.end_hit.is_none() && match end {
                    Some(t) => contains_text(text.as_str(), t.as_str()),
                    None => false,
                };
                let counted = Detection {
                    start: d.start,
                    tokens: d.tokens,
                    start_hit: d.start_hit,
                    end_hit: d.end_hit,
                    lines: d.lines.saturating_add(1),
                };
                if sees_start || sees_end {
                    PhaseStep::Continue(
                        PhaseRun {
                            domains,
                            max_map,
                            matcher,
                            stage: PhaseStage::AwaitToken(
                                counted,
                                PendingToken::Anchors { start: sees_start, end: sees_end },
                            ),
                        },
                    )
                } else {
                    PhaseStep::Continue(
                        PhaseRun { domains, max_map, matcher, stage: PhaseStage::Streaming(counted) },
                    )
                }
            },
        }
    }

    /// Records the boundary `pending` under the snapshot `snapshot`.
    fn record(d: Detection, pending: PendingToken, snapshot: EnergySnapshot, matcher: &TokenMatcher) -> (after:
        Detection)
        ensures
            is_recorded(after, d, pending, snapshot, *matcher),
    {
        let Detection { start, tokens, start_hit, end_hit, lines } = d;
        match pending {
            PendingToken::Matched(label) => {
                let mut tokens = tokens;
                tokens.push(DetectedToken { token: label, snapshot, line_number: lines });
                Detection { start, tokens, start_hit, end_hit, lines }
            },
            PendingToken::Anchors { start: sees_start, end: sees_end } => {
                match matcher {
                    TokenMatcher::Anchors { start: start_text, end: end_text } => {
                        let new_start = if sees_start && start_hit.is_none() {
                            match start_text {
                                Some(t) => Some(
                                    DetectedToken {
                                        token: t.clone(),
                                        snapshot: snapshot.clone(),
                                        line_number: lines,
                                    },
                                ),
                                None => None,
                            }
                        } else {
                            start_hit
                        };
                        let new_end = if sees_end && end_hit.is_none() {
                            match end_text {
                                Some(t) => Some(
                                    DetectedToken { token: t.clone(), snapshot, line_number: lines },
                                ),
                                None => None,
                            }
                        } else {
                            end_hit
                        };
                        Detection { start, tokens, start_hit: new_start, end_hit: new_end, lines }
                    },
                    TokenMatcher::Pattern(_) => Detection { start, tokens, start_hit, end_hit, lines },
                }
            },
        }
    }

    /// Takes in what the caller has done.
    pub fn advance(self, event: PhaseEvent) -> (step: PhaseStep<'a>)
        ensures
            phase_follows(self, event, step),
    {
        let PhaseRun { domains, max_map, matcher, stage } = self;
        match event {
            PhaseEvent::Failed(e) => PhaseStep::Failed(e),
            PhaseEvent::Snapshot(s) => match stage {
                PhaseStage::AwaitStart => PhaseStep::Continue(
                    PhaseRun {
                        domains,
                        max_map,
                        matcher,
                        stage: PhaseStage::Spawning(
                            Detection {
                                start: s,
                                tokens: Vec::new(),
                                start_hit: None,
                                end_hit: None,
                                lines: 0,
                            },
                        ),
                    },
                ),
                PhaseStage::AwaitToken(d, pending) => {
                    let after = PhaseRun::record(d, pending, s, &matcher);
                    PhaseStep::Continue(
                        PhaseRun { domains, max_map, matcher, stage: PhaseStage::Streaming(after) },
                    )
                },
                PhaseStage::AwaitEnd(d, exit_code) => {
                    let outcome = match &matcher {
                        TokenMatcher::Pattern(_) => assemble_phases(
                            domains.as_slice(),
                            &max_map,
                            &d.start,
                            &s,
                            &d.tokens,
                            exit_code,
                        ),
                        TokenMatcher::Anchors { .. } => assemble_anchor_phases(
                            domains.as_slice(),
                            &max_map,
                            &d.start,
                            &s,
                            &d.start_hit,
                            &d.end_hit,
                            exit_code,
                        ),
                    };
                    match outcome {
                        Ok(res) => PhaseStep::Finished(res),
                        Err(e) => PhaseStep::Failed(e),
                    }
                },
                other => PhaseStep::Continue(PhaseRun { domains, max_map, matcher, stage: other }),
            },
            PhaseEvent::Started => match stage {
                PhaseStage::Spawning(d) => PhaseStep::Continue(
                    PhaseRun { domains, max_map, matcher, stage: PhaseStage::Streaming(d) },
                ),
                other => PhaseStep::Continue(PhaseRun { domains, max_map, matcher, stage: other }),
            },
            PhaseEvent::Line(text) => match stage {
                PhaseStage::Streaming(d) => PhaseRun::take_line(domains, max_map, matcher, d, text),
                other => PhaseStep::Continue(PhaseRun { domains, max_map, matcher, stage: other }),
            },
            PhaseEvent::OutputEnded => match stage {
                PhaseStage::Streaming(d) => PhaseStep::Continue(
                    PhaseRun { domains, max_map, matcher, stage: PhaseStage::AwaitExit(d) },
                ),
                other => PhaseStep::Continue(PhaseRun { domains, max_map, matcher, stage: other }),
            },
            PhaseEvent::Exited(code) => match stage {
                PhaseStage::AwaitExit(d) => PhaseStep::Continue(
                    PhaseRun {
                        domains,
                        max_map,
                        matcher,
                        stage: PhaseStage::AwaitEnd(d, reported_exit_code(code)),
                    },
                ),
                other => PhaseStep::Continue(PhaseRun { domains, max_map, matcher, stage: other }),
            },
        }
    }
}

} // verus!
