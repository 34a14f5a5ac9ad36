//! Counter differences and the measurements built from them.

use vstd::prelude::*;
use vstd::string::*;
use crate::config::{clone_text, text_of};
use crate::counter_map::CounterMap;
use crate::errors::{Failure, JouleProfilerError};
use crate::rapl::domain::RaplDomain;
use crate::rapl::snapshot::EnergySnapshot;
use crate::text::{decimal, push_decimal, to_uppercase, uppercase_of};

verus! {

/// The energy a counter accounted for between two readings, or `None` where
/// the readings admit no trustworthy answer.
///
/// A counter that did not go backwards gives `end - start`. One that did has
/// wrapped: with a known range `max` the difference is `end + max - start`,
/// accepted only when it lies between zero and half the range.
pub open spec fn energy_delta(start: u64, end: u64, max: Option<u64>) -> Option<int> {
    if end >= start {
        Some(end - start)
    } else {
        match max {
            Some(m) => {
                let wrapped = end + m - start;
                if 0 <= wrapped <= m / 2 {
                    Some(wrapped)
                } else {
                    None
                }
            },
            None => None,
        }
    }
}

/// Difference of two readings of one counter, corrected for a single wrap.
///
/// `domain_name` identifies the counter to the caller and plays no part in
/// the result.
pub fn energy_diff(start: u64, end: u64, max: Option<u64>, domain_name: &str) -> (r: Result<
    u64,
    JouleProfilerError,
>)
    ensures
        match energy_delta(start, end, max) {
            Some(d) => r == Ok::<u64, JouleProfilerError>(d as u64) && 0 <= d <= u64::MAX,
            None => r matches Err(e) && e@ == Failure::CounterOverflow,
        },
        end >= start ==> r == Ok::<u64, JouleProfilerError>((end - start) as u64),
        end < start && max is Some && 0 <= end + max->0 - start <= max->0 / 2 ==> r == Ok::<
            u64,
            JouleProfilerError,
        >((end + max->0 - start) as u64),
        end < start && max is None ==> (r matches Err(e) && e@ == Failure::CounterOverflow),
{
    if end >= start {
        Ok(end - start)
    } else {
        match max {
            Some(m) => {
                let gap: u64 = start - end;
                if gap > m {
                    Err(JouleProfilerError::CounterOverflow)
                } else {
                    let wrapped: u64 = m - gap;
                    if wrapped > m / 2 {
                        Err(JouleProfilerError::CounterOverflow)
                    } else {
                        Ok(wrapped)
                    }
                }
            },
            None => Err(JouleProfilerError::CounterOverflow),
        }
    }
}

/// What one run, or one phase of a run, consumed.
#[derive(Debug)]
pub struct MeasurementResult {
    /// Energy in microjoules, by domain name and socket.
    pub energy_uj: CounterMap,
    /// How long it took, in milliseconds.
    pub duration_ms: u128,
    /// The exit code of the command.
    pub exit_code: i32,
}

impl Clone for MeasurementResult {
    fn clone(&self) -> (r: Self)
        ensures
            r.energy_uj@ == self.energy_uj@,
            r.energy_uj.keys() == self.energy_uj.keys(),
            r.duration_ms == self.duration_ms,
            r.exit_code == self.exit_code,
    {
        MeasurementResult {
            energy_uj: self.energy_uj.clone(),
            duration_ms: self.duration_ms,
            exit_code: self.exit_code,
        }
    }
}

/// The range of each counter in `domains` that states one, by the
/// counter's path. Of two counters with one path the later one stays.
pub open spec fn max_ranges(domains: Seq<&RaplDomain>) -> Map<Seq<char>, u64>
    decreases domains.len(),
{
    if domains.len() == 0 {
        Map::empty()
    } else {
        let earlier = max_ranges(domains.drop_last());
        match domains.last().max_energy_uj {
            Some(max) => earlier.insert(domains.last().path@, max),
            None => earlier,
        }
    }
}

/// Collects the known counter ranges of `domains`, by path.
pub fn build_max_map(domains: &[&RaplDomain]) -> (m: CounterMap)
    ensures
        m@ == max_ranges(domains@),
{
    let mut m = CounterMap::new();
    let mut i: usize = 0;
    while i < domains.len()
        invariant
            i <= domains@.len(),
            m@ == max_ranges(domains@.take(i as int)),
        decreases domains@.len() - i,
    {
        let d = domains[i];
        proof {
            assert(domains@.take(i + 1).drop_last() =~= domains@.take(i as int));
        }
        match d.max_energy_uj {
            Some(max) => {
                m.insert(d.path.clone(), max);
            },
            None => {},
        }
        i += 1;
    }
    proof {
        assert(domains@.take(i as int) =~= domains@);
    }
    m
}

/// The energy that the counters of one domain name on one socket
/// accounted for together.
pub ghost struct EnergyGroup {
    pub name: Seq<char>,
    pub socket: u32,
    pub total: nat,
}

/// Whether `groups` holds a group for `name` on `socket`.
pub open spec fn has_group(groups: Seq<EnergyGroup>, name: Seq<char>, socket: u32) -> bool {
    exists|i: int|
        0 <= i < groups.len() && (#[trigger] groups[i]).name == name && groups[i].socket == socket
}

/// The place of the group for `name` on `socket`.
pub open spec fn group_at(groups: Seq<EnergyGroup>, name: Seq<char>, socket: u32) -> int {
    choose|i: int|
        0 <= i < groups.len() && (#[trigger] groups[i]).name == name && groups[i].socket == socket
}

/// What the group for `name` on `socket` has so far: nothing where there
/// is no such group.
pub open spec fn group_total(groups: Seq<EnergyGroup>, name: Seq<char>, socket: u32) -> nat {
    if has_group(groups, name, socket) {
        groups[group_at(groups, name, socket)].total
    } else {
        0
    }
}

/// `groups` with `delta` added to the group for `name` on `socket`; a new
/// group goes to the end.
pub open spec fn add_delta(groups: Seq<EnergyGroup>, name: Seq<char>, socket: u32, delta: nat) -> Seq<
    EnergyGroup,
> {
    if has_group(groups, name, socket) {
        let i = group_at(groups, name, socket);
        groups.update(i, EnergyGroup { name, socket, total: groups[i].total + delta })
    } else {
        groups.push(EnergyGroup { name, socket, total: delta })
    }
}

/// No two groups are for the same name on the same socket.
pub open spec fn groups_distinct(groups: Seq<EnergyGroup>) -> bool {
    forall|i: int, j: int|
        0 <= i < j < groups.len() ==> !((#[trigger] groups[i]).name == (#[trigger] groups[j]).name
            && groups[i].socket == groups[j].socket)
}

/// The text that reports a counter missing from a snapshot, `which` being
/// `start` or `end`.
pub open spec fn missing_energy_text(name: Seq<char>, which: Seq<char>) -> Seq<char> {
    "Missing "@ + which + " energy snapshot for domain '"@ + name + "'"@
}

/// The energy groups of `domains` between the snapshots `begin` and `end`,
/// in the order in which their first counter stands in `domains`.
///
/// Each counter adds its [`energy_delta`] to the group of its name and
/// socket. The first counter that is missing from a snapshot, whose
/// difference admits no answer, or that takes its group beyond 64 bits
/// decides the failure.
pub open spec fn grouped_deltas(
    domains: Seq<&RaplDomain>,
    max: Map<Seq<char>, u64>,
    begin: Map<Seq<char>, u64>,
    end: Map<Seq<char>, u64>,
) -> Result<Seq<EnergyGroup>, Failure>
    decreases domains.len(),
{
    if domains.len() == 0 {
        Ok(Seq::empty())
    } else {
        match grouped_deltas(domains.drop_last(), max, begin, end) {
            Err(fault) => Err(fault),
            Ok(groups) => {
                let d = domains.last();
                let range = range_at(max, d.path@);
                if !begin.dom().contains(d.path@) {
                    Err(Failure::RaplReadError(missing_energy_text(d.name@, "start"@)))
                } else if !end.dom().contains(d.path@) {
                    Err(Failure::RaplReadError(missing_energy_text(d.name@, "end"@)))
                } else {
                    match energy_delta(begin[d.path@], end[d.path@], range) {
                        None => Err(Failure::CounterOverflow),
                        Some(delta) => if group_total(groups, d.name@, d.socket) + delta
                            > u64::MAX {
                            Err(Failure::CounterOverflow)
                        } else {
                            Ok(add_delta(groups, d.name@, d.socket, delta as nat))
                        },
                    }
                }
            },
        }
    }
}

/// A failure among the first counters is the failure of the whole list.
pub proof fn lemma_grouped_fault_stays(
    domains: Seq<&RaplDomain>,
    k: nat,
    max: Map<Seq<char>, u64>,
    begin: Map<Seq<char>, u64>,
    end: Map<Seq<char>, u64>,
)
    requires
        k <= domains.len(),
    ensures
        grouped_deltas(domains.take(k as int), max, begin, end) matches Err(fault)
            ==> grouped_deltas(domains, max, begin, end) == Err::<Seq<EnergyGroup>, Failure>(
            fault,
        ),
    decreases domains.len(),
{
    if k == domains.len() {
        assert(domains.take(k as int) =~= domains);
    } else {
        assert(domains.drop_last().take(k as int) =~= domains.take(k as int));
        lemma_grouped_fault_stays(domains.drop_last(), k, max, begin, end);
    }
}

/// The range that `max` gives for the counter at `path`.
pub open spec fn range_at(max: Map<Seq<char>, u64>, path: Seq<char>) -> Option<u64> {
    if max.dom().contains(path) {
        Some(max[path])
    } else {
        None
    }
}

/// What the counter `d` accounted for between `begin` and `end`: nothing
/// where its difference admits no answer.
pub open spec fn domain_delta(
    d: &RaplDomain,
    max: Map<Seq<char>, u64>,
    begin: Map<Seq<char>, u64>,
    end: Map<Seq<char>, u64>,
) -> nat {
    match energy_delta(begin[d.path@], end[d.path@], range_at(max, d.path@)) {
        Some(x) => x as nat,
        None => 0,
    }
}

/// The sum of what the counters of `domains` with the name `name` on the
/// socket `socket` accounted for.
pub open spec fn delta_sum(
    domains: Seq<&RaplDomain>,
    max: Map<Seq<char>, u64>,
    begin: Map<Seq<char>, u64>,
    end: Map<Seq<char>, u64>,
    name: Seq<char>,
    socket: u32,
) -> nat
    decreases domains.len(),
{
    if domains.len() == 0 {
        0
    } else {
        delta_sum(domains.drop_last(), max, begin, end, name, socket) + (if domains.last().name@
            == name && domains.last().socket == socket {
            domain_delta(domains.last(), max, begin, end)
        } else {
            0
        })
    }
}

/// Whether `domains` holds a counter with the name `name` on the socket
/// `socket`.
pub open spec fn has_counter(domains: Seq<&RaplDomain>, name: Seq<char>, socket: u32) -> bool {
    exists|j: int|
        0 <= j < domains.len() && (#[trigger] domains[j]).name@ == name && domains[j].socket
            == socket
}

/// Whether `groups` are the sums of `domains`: one group for each name
/// and socket that occurs in `domains`, no other and none twice, each
/// with the sum of what its counters accounted for, which fits 64 bits.
pub open spec fn groups_sum_up(
    groups: Seq<EnergyGroup>,
    domains: Seq<&RaplDomain>,
    max: Map<Seq<char>, u64>,
    begin: Map<Seq<char>, u64>,
    end: Map<Seq<char>, u64>,
) -> bool {
    &&& groups_distinct(groups)
    &&& forall|i: int|
        0 <= i < groups.len() ==> (#[trigger] groups[i]).total == delta_sum(
            domains,
            max,
            begin,
            end,
            groups[i].name,
            groups[i].socket,
        ) && groups[i].total <= u64::MAX
    &&& forall|j: int|
        0 <= j < domains.len() ==> has_group(groups, (#[trigger] domains[j]).name@, domains[j].socket)
    &&& forall|i: int|
        0 <= i < groups.len() ==> has_counter(domains, (#[trigger] groups[i]).name, groups[i].socket)
}

/// Where the counters of `domains` can all be accounted for, their
/// groups are their sums by name and socket.
pub proof fn lemma_groups_are_sums(
    domains: Seq<&RaplDomain>,
    max: Map<Seq<char>, u64>,
    begin: Map<Seq<char>, u64>,
    end: Map<Seq<char>, u64>,
)
    requires
        grouped_deltas(domains, max, begin, end) is Ok,
    ensures
        groups_sum_up(grouped_deltas(domains, max, begin, end)->Ok_0, domains, max, begin, end),
    decreases domains.len(),
{
    let groups = grouped_deltas(domains, max, begin, end)->Ok_0;
    if domains.len() > 0 {
        let head = domains.drop_last();
        let d = domains.last();
        lemma_groups_are_sums(head, max, begin, end);
        let before = grouped_deltas(head, max, begin, end)->Ok_0;
        if has_group(before, d.name@, d.socket) {
            let p = group_at(before, d.name@, d.socket);
            assert forall|i: int| 0 <= i < groups.len() implies (#[trigger] groups[i]).total
                == delta_sum(domains, max, begin, end, groups[i].name, groups[i].socket)
                && groups[i].total <= u64::MAX by {}
            assert forall|i: int, j: int| 0 <= i < j < groups.len() implies !((
            #[trigger] groups[i]).name == (#[trigger] groups[j]).name && groups[i].socket
                == groups[j].socket) by {}
            assert forall|j: int| 0 <= j < domains.len() implies has_group(
                groups,
                (#[trigger] domains[j]).name@,
                domains[j].socket,
            ) by {
                if j < head.len() {
                    let q = group_at(before, head[j].name@, head[j].socket);
                    assert(groups[q].name == before[q].name && groups[q].socket
                        == before[q].socket);
                } else {
                    assert(groups[p].name == d.name@ && groups[p].socket == d.socket);
                }
            }
            assert forall|i: int| 0 <= i < groups.len() implies has_counter(
                domains,
                (#[trigger] groups[i]).name,
                groups[i].socket,
            ) by {}
        } else {
            let n = before.len() as int;
            assert(groups[n].name == d.name@ && groups[n].socket == d.socket);
            lemma_no_group_no_counter(head, max, begin, end, d.name@, d.socket);
            assert forall|i: int| 0 <= i < groups.len() implies (#[trigger] groups[i]).total
                == delta_sum(domains, max, begin, end, groups[i].name, groups[i].socket)
                && groups[i].total <= u64::MAX by {}
            assert forall|i: int, j: int| 0 <= i < j < groups.len() implies !((
            #[trigger] groups[i]).name == (#[trigger] groups[j]).name && groups[i].socket
                == groups[j].socket) by {}
            assert forall|j: int| 0 <= j < domains.len() implies has_group(
                groups,
                (#[trigger] domains[j]).name@,
                domains[j].socket,
            ) by {
                if j < head.len() {
                    let q = group_at(before, head[j].name@, head[j].socket);
                    assert(groups[q] == before[q]);
                }
            }
            assert forall|i: int| 0 <= i < groups.len() implies has_counter(
                domains,
                (#[trigger] groups[i]).name,
                groups[i].socket,
            ) by {}
        }
    }
}

/// A name and socket without a group has no counter, and its sum is zero.
proof fn lemma_no_group_no_counter(
    domains: Seq<&RaplDomain>,
    max: Map<Seq<char>, u64>,
    begin: Map<Seq<char>, u64>,
    end: Map<Seq<char>, u64>,
    name: Seq<char>,
    socket: u32,
)
    requires
        grouped_deltas(domains, max, begin, end) is Ok,
        groups_sum_up(grouped_deltas(domains, max, begin, end)->Ok_0, domains, max, begin, end),
        !has_group(grouped_deltas(domains, max, begin, end)->Ok_0, name, socket),
    ensures
        delta_sum(domains, max, begin, end, name, socket) == 0,
{
    assert forall|j: int| 0 <= j < domains.len() implies !((#[trigger] domains[j]).name@ == name
        && domains[j].socket == socket) by {}
    lemma_sum_of_no_counter(domains, max, begin, end, name, socket);
}

proof fn lemma_sum_of_no_counter(
    domains: Seq<&RaplDomain>,
    max: Map<Seq<char>, u64>,
    begin: Map<Seq<char>, u64>,
    end: Map<Seq<char>, u64>,
    name: Seq<char>,
    socket: u32,
)
    requires
        forall|j: int|
            0 <= j < domains.len() ==> !((#[trigger] domains[j]).name@ == name && domains[j].socket
                == socket),
    ensures
        delta_sum(domains, max, begin, end, name, socket) == 0,
    decreases domains.len(),
{
    if domains.len() > 0 {
        let head = domains.drop_last();
        assert forall|j: int| 0 <= j < head.len() implies !((#[trigger] head[j]).name@ == name
            && head[j].socket == socket) by {}
        lemma_sum_of_no_counter(head, max, begin, end, name, socket);
    }
}

/// The key under which the energy of `name` on `socket` is reported: the
/// name in upper case, an underscore, the socket in decimal.
pub open spec fn energy_key(name: Seq<char>, socket: u32) -> Seq<char> {
    uppercase_of(name) + "_"@ + decimal(socket as nat)
}

/// The totals of `groups`, each under its [`energy_key`]. Of two groups
/// with one key the later one stays.
pub open spec fn keyed_totals(groups: Seq<EnergyGroup>) -> Map<Seq<char>, u64>
    decreases groups.len(),
{
    if groups.len() == 0 {
        Map::empty()
    } else {
        keyed_totals(groups.drop_last()).insert(
            energy_key(groups.last().name, groups.last().socket),
            groups.last().total as u64,
        )
    }
}

/// The key of group `i` of `groups`.
pub open spec fn key_of(groups: Seq<EnergyGroup>, i: int) -> Seq<char> {
    energy_key(groups[i].name, groups[i].socket)
}

/// Whether one of `groups` is reported under `key`.
pub open spec fn has_key(groups: Seq<EnergyGroup>, key: Seq<char>) -> bool {
    exists|i: int| 0 <= i < groups.len() && #[trigger] key_of(groups, i) == key
}

/// Whether no group behind group `i` has the key of group `i`.
pub open spec fn is_last_of_key(groups: Seq<EnergyGroup>, i: int) -> bool {
    forall|j: int| i < j < groups.len() ==> #[trigger] key_of(groups, j) != key_of(groups, i)
}

/// The keys of the report are the keys of the groups, and under each key
/// stands the total of the last group that has it.
pub proof fn lemma_keyed_totals(groups: Seq<EnergyGroup>)
    ensures
        forall|key: Seq<char>| #[trigger]
            keyed_totals(groups).dom().contains(key) <==> has_key(groups, key),
        forall|i: int|
            0 <= i < groups.len() && is_last_of_key(groups, i) ==> keyed_totals(groups)[
            #[trigger] key_of(groups, i)] == groups[i].total as u64,
    decreases groups.len(),
{
    if groups.len() > 0 {
        let head = groups.drop_last();
        let n = head.len() as int;
        lemma_keyed_totals(head);
        assert forall|key: Seq<char>| #[trigger]
            keyed_totals(groups).dom().contains(key) <==> has_key(groups, key) by {
            if has_key(groups, key) {
                let i = choose|i: int| 0 <= i < groups.len() && #[trigger] key_of(groups, i) == key;
                if i < n {
                    assert(key_of(head, i) == key);
                }
            }
            if keyed_totals(head).dom().contains(key) {
                let i = choose|i: int| 0 <= i < head.len() && #[trigger] key_of(head, i) == key;
                assert(key_of(groups, i) == key);
            }
            if key == key_of(groups, n) {
                assert(has_key(groups, key));
            }
        }
        assert forall|i: int|
            0 <= i < groups.len() && is_last_of_key(groups, i) implies keyed_totals(groups)[
        #[trigger] key_of(groups, i)] == groups[i].total as u64 by {
            if i < n {
                assert(key_of(groups, n) != key_of(groups, i));
                assert(key_of(head, i) == key_of(groups, i));
                assert forall|j: int| i < j < head.len() implies #[trigger] key_of(head, j)
                    != key_of(head, i) by {
                    assert(key_of(groups, j) != key_of(groups, i));
                }
            }
        }
    }
}

/// The energy per key that `domains` accounted for between `begin` and
/// `end`, or the reason why there is none.
pub open spec fn measured_energy(
    domains: Seq<&RaplDomain>,
    max: Map<Seq<char>, u64>,
    begin: Map<Seq<char>, u64>,
    end: Map<Seq<char>, u64>,
) -> Result<Map<Seq<char>, u64>, Failure> {
    if domains.len() == 0 {
        Err(Failure::NoDomains)
    } else {
        match grouped_deltas(domains, max, begin, end) {
            Err(fault) => Err(fault),
            Ok(groups) => Ok(keyed_totals(groups)),
        }
    }
}

struct GroupSum {
    name: String,
    socket: u32,
    total: u64,
}

spec fn groups_of(sums: Seq<GroupSum>) -> Seq<EnergyGroup> {
    Seq::new(
        sums.len(),
        |i: int| EnergyGroup { name: sums[i].name@, socket: sums[i].socket, total: sums[i].total as nat },
    )
}

fn find_group(sums: &Vec<GroupSum>, name: &String, socket: u32) -> (r: Option<usize>)
    ensures
        match r {
            Some(i) => i < sums@.len() && sums@[i as int].name@ == name@ && sums@[i as int].socket
                == socket,
            None => !has_group(groups_of(sums@), name@, socket),
        },
{
    let mut i: usize = 0;
    while i < sums.len()
        invariant
            i <= sums@.len(),
            forall|j: int|
                0 <= j < i ==> !(groups_of(sums@)[j].name == name@ && groups_of(sums@)[j].socket
                    == socket),
        decreases sums@.len() - i,
    {
        if sums[i].socket == socket && sums[i].name == *name {
            return Some(i);
        }
        i += 1;
    }
    None
}

fn missing_energy_error(name: &str, which: &str) -> (e: JouleProfilerError)
    ensures
        e@ == Failure::RaplReadError(missing_energy_text(name@, which@)),
{
    let mut text = String::from_str("Missing ");
    text.append(which);
    text.append(" energy snapshot for domain '");
    text.append(name);
    text.append("'");
    JouleProfilerError::RaplReadError(text)
}

fn energy_key_text(name: &str, socket: u32) -> (key: String)
    ensures
        key@ == energy_key(name@, socket),
{
    let mut key = to_uppercase(name);
    key.append("_");
    push_decimal(&mut key, socket as u128);
    key
}

/// One measurement from two snapshots.
///
/// The energy of each counter in `domains` is its [`energy_diff`] between
/// `begin` and `end`, with the range that `max_map` gives for its path.
/// Counters of one name on one socket are summed and reported under one
/// key. Duration and exit code are handed through.
pub fn compute_measurement_from_snapshots(
    domains: &[&RaplDomain],
    max_map: &CounterMap,
    begin: &EnergySnapshot,
    end: &EnergySnapshot,
    duration_ms: u128,
    exit_code: i32,
) -> (r: Result<MeasurementResult, JouleProfilerError>)
    ensures
        match measured_energy(domains@, max_map@, begin.energies_uj@, end.energies_uj@) {
            Ok(energy) => r matches Ok(m) && m.energy_uj@ == energy && m.duration_ms == duration_ms
                && m.exit_code == exit_code,
            Err(fault) => r matches Err(e) && e@ == fault,
        },
{
    if domains.len() == 0 {
        return Err(JouleProfilerError::NoDomains);
    }
    let ghost max = max_map@;
    let ghost first = begin.energies_uj@;
    let ghost last = end.energies_uj@;
    let mut sums: Vec<GroupSum> = Vec::new();
    let mut i: usize = 0;
    proof {
        assert(groups_of(sums@) =~= Seq::<EnergyGroup>::empty());
    }
    while i < domains.len()
        invariant
            i <= domains@.len(),
            max == max_map@,
            first == begin.energies_uj@,
            last == end.energies_uj@,
            grouped_deltas(domains@.take(i as int), max, first, last) == Ok::<
                Seq<EnergyGroup>,
                Failure,
            >(groups_of(sums@)),
            groups_distinct(groups_of(sums@)),
        decreases domains@.len() - i,
    {
        let d = domains[i];
        let ghost groups = groups_of(sums@);
        proof {
            assert(domains@.take(i + 1).drop_last() =~= domains@.take(i as int));
            lemma_grouped_fault_stays(domains@, (i + 1) as nat, max, first, last);
        }
        let start_uj = match begin.energies_uj.get(d.path.as_str()) {
            Some(v) => v,
            None => {
                return Err(missing_energy_error(d.name.as_str(), "start"));
            },
        };
        let end_uj = match end.energies_uj.get(d.path.as_str()) {
            Some(v) => v,
            None => {
                return Err(missing_energy_error(d.name.as_str(), "end"));
            },
        };
        let max_uj = max_map.get(d.path.as_str());
        let diff_uj = match energy_diff(start_uj, end_uj, max_uj, d.name.as_str()) {
            Ok(v) => v,
            Err(e) => {
                return Err(e);
            },
        };
        match find_group(&sums, &d.name, d.socket) {
            Some(p) => {
                proof {
                    assert(groups[p as int].name == d.name@ && groups[p as int].socket == d.socket);
                }
                let total = match sums[p].total.checked_add(diff_uj) {
                    Some(t) => t,
                    None => {
                        return Err(JouleProfilerError::CounterOverflow);
                    },
                };
                let sum = GroupSum { name: d.name.clone(), socket: d.socket, total };
                sums.set(p, sum);
                proof {
                    assert(groups_of(sums@) =~= add_delta(
                        groups,
                        d.name@,
                        d.socket,
                        diff_uj as nat,
                    ));
                }
            },
            None => {
                let sum = GroupSum { name: d.name.clone(), socket: d.socket, total: diff_uj };
                sums.push(sum);
                proof {
                    assert(groups_of(sums@) =~= add_delta(
                        groups,
                        d.name@,
                        d.socket,
                        diff_uj as nat,
                    ));
                    assert forall|a: int, b: int|
                        0 <= a < b < groups_of(sums@).len() implies !((#[trigger] groups_of(
                        sums@,
                    )[a]).name == (#[trigger] groups_of(sums@)[b]).name && groups_of(sums@)[a].socket
                        == groups_of(sums@)[b].socket) by {}
                }
            },
        }
        i += 1;
    }
    proof {
        assert(domains@.take(i as int) =~= domains@);
    }
    let ghost groups = groups_of(sums@);
    let mut energy_uj = CounterMap::new();
    let mut j: usize = 0;
    while j < sums.len()
        invariant
            j <= sums@.len(),
            groups == groups_of(sums@),
            energy_uj@ == keyed_totals(groups.take(j as int)),
        decreases sums@.len() - j,
    {
        proof {
            assert(groups.take(j + 1).drop_last() =~= groups.take(j as int));
        }
        let key = energy_key_text(sums[j].name.as_str(), sums[j].socket);
        energy_uj.insert(key, sums[j].total);
        j += 1;
    }
    proof {
        assert(groups.take(j as int) =~= groups);
    }
    Ok(MeasurementResult { energy_uj, duration_ms, exit_code })
}

/// What one phase of a run consumed, with the tokens that bound it.
#[derive(Debug)]
pub struct PhaseMeasurement {
    /// The name of the phase.
    pub name: String,
    /// The label of the boundary at which the phase starts.
    pub start_token: Option<String>,
    /// The label of the boundary at which the phase ends.
    pub end_token: Option<String>,
    /// The output line that held the starting token.
    pub start_line: Option<usize>,
    /// The output line that held the ending token.
    pub end_line: Option<usize>,
    /// What the phase consumed.
    pub result: MeasurementResult,
}

/// The phases of one run, in the order of their boundaries.
#[derive(Debug)]
pub struct PhasesResult {
    pub phases: Vec<PhaseMeasurement>,
}

/// Whether two phases say the same: name, boundaries, lines and what
/// was consumed.
pub open spec fn same_phase(a: PhaseMeasurement, b: PhaseMeasurement) -> bool {
    &&& a.name@ == b.name@
    &&& text_of(a.start_token) == text_of(b.start_token)
    &&& text_of(a.end_token) == text_of(b.end_token)
    &&& a.start_line == b.start_line
    &&& a.end_line == b.end_line
    &&& a.result.energy_uj@ == b.result.energy_uj@
    &&& a.result.energy_uj.keys() == b.result.energy_uj.keys()
    &&& a.result.duration_ms == b.result.duration_ms
    &&& a.result.exit_code == b.result.exit_code
}

impl Clone for PhaseMeasurement {
    fn clone(&self) -> (r: Self)
        ensures
            same_phase(r, *self),
    {
        PhaseMeasurement {
            name: self.name.clone(),
            start_token: clone_text(&self.start_token),
            end_token: clone_text(&self.end_token),
            start_line: self.start_line,
            end_line: self.end_line,
            result: self.result.clone(),
        }
    }
}

impl Clone for PhasesResult {
    fn clone(&self) -> (r: Self)
        ensures
            r.phases@.len() == self.phases@.len(),
            forall|i: int|
                0 <= i < self.phases@.len() ==> same_phase(#[trigger] r.phases@[i], self.phases@[i]),
    {
        let mut phases: Vec<PhaseMeasurement> = Vec::new();
        let mut i: usize = 0;
        while i < self.phases.len()
            invariant
                i <= self.phases@.len(),
                phases@.len() == i,
                forall|j: int| 0 <= j < i ==> same_phase(#[trigger] phases@[j], self.phases@[j]),
            decreases self.phases@.len() - i,
        {
            phases.push(self.phases[i].clone());
            i += 1;
        }
        PhasesResult { phases }
    }
}

} // verus!
