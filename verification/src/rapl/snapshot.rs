//! Grouped readings of the counters and the differences between two of
//! them.

use vstd::prelude::*;
use vstd::string::*;
use crate::counter_map::CounterMap;
use crate::errors::{Failure, JouleProfilerError};
use crate::measure::common::{energy_delta, energy_diff};
use crate::rapl::domain::RaplDomain;
use crate::text::{fault_text, parse_decimal, parse_u64, trim, trimmed, NumberFault};

verus! {

/// The raw values of all active counters, read together, with the time of
/// the reading in microseconds.
#[derive(Debug)]
pub struct EnergySnapshot {
    /// The reading of each counter, by the counter's path.
    pub energies_uj: CounterMap,
    /// When the readings were taken.
    pub timestamp_us: u128,
}

impl Clone for EnergySnapshot {
    fn clone(&self) -> (r: Self)
        ensures
            r.energies_uj@ == self.energies_uj@,
            r.energies_uj.keys() == self.energies_uj.keys(),
            r.timestamp_us == self.timestamp_us,
    {
        EnergySnapshot { energies_uj: self.energies_uj.clone(), timestamp_us: self.timestamp_us }
    }
}

/// Whether a counter that both snapshots hold reads less in `after`
/// than in `before`.
pub open spec fn went_backwards(after: Map<Seq<char>, u64>, before: Map<Seq<char>, u64>) -> bool {
    exists|k: Seq<char>|
        after.dom().contains(k) && before.dom().contains(k) && #[trigger] after[k] < before[k]
}

/// The difference of every counter that both snapshots hold.
pub open spec fn counters_delta(after: Map<Seq<char>, u64>, before: Map<Seq<char>, u64>) -> Map<
    Seq<char>,
    u64,
> {
    Map::new(
        |k: Seq<char>| after.dom().contains(k) && before.dom().contains(k),
        |k: Seq<char>| (after[k] - before[k]) as u64,
    )
}

/// The text that reports a counter missing from one of the two snapshots,
/// `which` being `before` or `after`.
pub open spec fn missing_text(name: Seq<char>, which: Seq<char>) -> Seq<char> {
    "Domain '"@ + name + "' missing in "@ + which + " snapshot"@
}

/// The difference of each counter in `domains`, by the counter's name:
/// its [`energy_delta`] with the range that the counter states. The first
/// counter that is missing from a snapshot, or whose difference admits no
/// answer, decides the failure. Of two counters with one name the later
/// one stays.
pub open spec fn deltas_by_name(
    domains: Seq<&RaplDomain>,
    after: Map<Seq<char>, u64>,
    before: Map<Seq<char>, u64>,
) -> Result<Map<Seq<char>, u64>, Failure>
    decreases domains.len(),
{
    if domains.len() == 0 {
        Ok(Map::empty())
    } else {
        match deltas_by_name(domains.drop_last(), after, before) {
            Err(fault) => Err(fault),
            Ok(m) => {
                let d = domains.last();
                if !before.dom().contains(d.path@) {
                    Err(Failure::RaplReadError(missing_text(d.name@, "before"@)))
                } else if !after.dom().contains(d.path@) {
                    Err(Failure::RaplReadError(missing_text(d.name@, "after"@)))
                } else {
                    match energy_delta(before[d.path@], after[d.path@], d.max_energy_uj) {
                        None => Err(Failure::CounterOverflow),
                        Some(delta) => Ok(m.insert(d.name@, delta as u64)),
                    }
                }
            },
        }
    }
}

/// A failure among the first counters is the failure of the whole list.
pub proof fn lemma_deltas_fault_stays(
    domains: Seq<&RaplDomain>,
    k: nat,
    after: Map<Seq<char>, u64>,
    before: Map<Seq<char>, u64>,
)
    requires
        k <= domains.len(),
    ensures
        deltas_by_name(domains.take(k as int), after, before) matches Err(fault)
            ==> deltas_by_name(domains, after, before) == Err::<Map<Seq<char>, u64>, Failure>(
            fault,
        ),
    decreases domains.len(),
{
    if k == domains.len() {
        assert(domains.take(k as int) =~= domains);
    } else {
        assert(domains.drop_last().take(k as int) =~= domains.take(k as int));
        lemma_deltas_fault_stays(domains.drop_last(), k, after, before);
    }
}

fn missing_error(name: &str, which: &str) -> (e: JouleProfilerError)
    ensures
        e@ == Failure::RaplReadError(missing_text(name@, which@)),
{
    let mut text = String::from_str("Domain '");
    text.append(name);
    text.append("' missing in ");
    text.append(which);
    text.append(" snapshot");
    JouleProfilerError::RaplReadError(text)
}

impl EnergySnapshot {
    /// The difference to the earlier snapshot `before`, for every counter
    /// that both hold. No range is known here, so a counter that went
    /// backwards cannot be corrected and fails the whole.
    pub fn diff(&self, before: &EnergySnapshot) -> (r: Result<CounterMap, JouleProfilerError>)
        ensures
            went_backwards(self.energies_uj@, before.energies_uj@) ==> (r matches Err(e) && e@
                == Failure::CounterOverflow),
            !went_backwards(self.energies_uj@, before.energies_uj@) ==> (r matches Ok(m) && m@
                == counters_delta(self.energies_uj@, before.energies_uj@)),
    {
        let mut m = CounterMap::new();
        let n = self.energies_uj.len();
        proof {
            self.energies_uj.lemma_entries();
        }
        let ghost keys = self.energies_uj.keys();
        let mut i: usize = 0;
        while i < n
            invariant
                i <= n,
                n == keys.len(),
                keys == self.energies_uj.keys(),
                keys.no_duplicates(),
                self.energies_uj@.dom() == keys.to_set(),
                forall|k: Seq<char>|
                    m@.dom().contains(k) <==> keys.take(i as int).contains(k)
                        && before.energies_uj@.dom().contains(k),
                forall|k: Seq<char>| #[trigger]
                    m@.dom().contains(k) ==> self.energies_uj@[k] >= before.energies_uj@[k] && m@[k]
                        == (self.energies_uj@[k] - before.energies_uj@[k]) as u64,
            decreases n - i,
        {
            let path = self.energies_uj.key_at(i);
            let after_energy = self.energies_uj.value_at(i);
            proof {
                assert forall|k: Seq<char>| keys.take(i + 1).contains(k) <==> keys.take(
                    i as int,
                ).contains(k) || k == keys[i as int] by {
                    if k == keys[i as int] {
                        assert(keys.take(i + 1)[i as int] == k);
                    }
                }
            }
            match before.energies_uj.get(path) {
                Some(before_energy) => {
                    if after_energy < before_energy {
                        return Err(JouleProfilerError::CounterOverflow);
                    }
                    m.insert(path.to_owned(), after_energy - before_energy);
                },
                None => {},
            }
            i += 1;
        }
        proof {
            assert(keys.take(n as int) =~= keys);
            assert forall|k: Seq<char>|
                self.energies_uj@.dom().contains(k) && before.energies_uj@.dom().contains(
                    k,
                ) implies !(#[trigger] self.energies_uj@[k] < before.energies_uj@[k]) by {
                assert(m@.dom().contains(k));
            }
        }
        Ok(m)
    }

    /// The time from the earlier snapshot `before` to this one, zero where
    /// this one is not the later.
    pub fn duration_us(&self, before: &EnergySnapshot) -> (d: u128)
        ensures
            d == (if self.timestamp_us >= before.timestamp_us {
                self.timestamp_us - before.timestamp_us
            } else {
                0
            }),
    {
        self.timestamp_us.saturating_sub(before.timestamp_us)
    }
}

/// The energy each counter in `domains` accounted for between the
/// snapshots `before` and `after`, by the counter's name. A counter that
/// went backwards is corrected by the range it states, as [`energy_diff`]
/// does it.
pub fn compute_energy_diff(
    after: &EnergySnapshot,
    before: &EnergySnapshot,
    domains: &[&RaplDomain],
) -> (r: Result<CounterMap, JouleProfilerError>)
    ensures
        match deltas_by_name(domains@, after.energies_uj@, before.energies_uj@) {
            Ok(deltas) => r matches Ok(m) && m@ == deltas,
            Err(fault) => r matches Err(e) && e@ == fault,
        },
{
    let mut result = CounterMap::new();
    let mut i: usize = 0;
    while i < domains.len()
        invariant
            i <= domains@.len(),
            deltas_by_name(domains@.take(i as int), after.energies_uj@, before.energies_uj@) == Ok::<
                Map<Seq<char>, u64>,
                Failure,
            >(result@),
        decreases domains@.len() - i,
    {
        let d = domains[i];
        proof {
            assert(domains@.take(i + 1).drop_last() =~= domains@.take(i as int));
            lemma_deltas_fault_stays(
                domains@,
                (i + 1) as nat,
                after.energies_uj@,
                before.energies_uj@,
            );
        }
        let before_val = match before.energies_uj.get(d.path.as_str()) {
            Some(v) => v,
            None => {
                return Err(missing_error(d.name.as_str(), "before"));
            },
        };
        let after_val = match after.energies_uj.get(d.path.as_str()) {
            Some(v) => v,
            None => {
                return Err(missing_error(d.name.as_str(), "after"));
            },
        };
        let delta = match energy_diff(before_val, after_val, d.max_energy_uj, d.name.as_str()) {
            Ok(v) => v,
            Err(e) => {
                return Err(e);
            },
        };
        result.insert(d.name.clone(), delta);
        i += 1;
    }
    proof {
        assert(domains@.take(i as int) =~= domains@);
    }
    Ok(result)
}

/// What an attempt to read one counter gave.
#[derive(Debug)]
pub enum CounterReading {
    /// The text that the counter showed.
    Text(String),
    /// The counter may not be read by this user.
    Denied,
    /// The counter could not be read, for the reason given.
    Failed(String),
}

/// The text that reports a counter whose text is not a number.
pub open spec fn bad_value_text(token: Seq<char>, name: Seq<char>, fault: NumberFault) -> Seq<char> {
    "Invalid energy value '"@ + token + "' in domain '"@ + name + "': "@ + fault_text(fault)
}

/// The text that reports a counter that could not be read.
pub open spec fn unreadable_text(name: Seq<char>, reason: Seq<char>) -> Seq<char> {
    "Failed to read energy from domain '"@ + name + "': "@ + reason
}

/// The value of the counter `name` from what reading it gave: the number
/// that its text holds between white space, or the failure to get one.
pub open spec fn reading_value(name: Seq<char>, reading: CounterReading) -> Result<u64, Failure> {
    match reading {
        CounterReading::Text(t) => match parse_decimal(trimmed(t@), u64::MAX as nat) {
            Ok(n) => Ok(n as u64),
            Err(fault) => Err(Failure::ParseEnergyError(bad_value_text(trimmed(t@), name, fault))),
        },
        CounterReading::Denied => Err(Failure::InsufficientPermissions),
        CounterReading::Failed(reason) => Err(
            Failure::RaplReadError(unreadable_text(name, reason@)),
        ),
    }
}

/// The value of counter `i` of `domains`: a counter for which `readings`
/// holds nothing could not be read.
pub open spec fn value_at(domains: Seq<&RaplDomain>, readings: Seq<CounterReading>, i: int) -> Result<
    u64,
    Failure,
> {
    if i < readings.len() {
        reading_value(domains[i].name@, readings[i])
    } else {
        Err(Failure::RaplReadError(unreadable_text(domains[i].name@, "no reading"@)))
    }
}

/// The values of the first `n` counters of `domains` by their paths, or
/// the failure of the first counter that has none. Of two counters with
/// one path the later one stays.
pub open spec fn values_by_path(
    domains: Seq<&RaplDomain>,
    readings: Seq<CounterReading>,
    n: nat,
) -> Result<Map<Seq<char>, u64>, Failure>
    recommends
        n <= domains.len(),
    decreases n,
{
    if n == 0 {
        Ok(Map::empty())
    } else {
        match values_by_path(domains, readings, (n - 1) as nat) {
            Err(fault) => Err(fault),
            Ok(m) => match value_at(domains, readings, n - 1) {
                Err(fault) => Err(fault),
                Ok(v) => Ok(m.insert(domains[n - 1].path@, v)),
            },
        }
    }
}

/// A failure among the first counters is the failure of the whole list.
pub proof fn lemma_values_fault_stays(
    domains: Seq<&RaplDomain>,
    readings: Seq<CounterReading>,
    k: nat,
    n: nat,
)
    requires
        k <= n,
    ensures
        values_by_path(domains, readings, k) matches Err(fault) ==> values_by_path(
            domains,
            readings,
            n,
        ) == Err::<Map<Seq<char>, u64>, Failure>(fault),
    decreases n,
{
    if k < n {
        lemma_values_fault_stays(domains, readings, k, (n - 1) as nat);
    }
}

/// The value that one reading of the counter `name` gave.
pub fn parse_reading(name: &str, reading: &CounterReading) -> (r: Result<u64, JouleProfilerError>)
    ensures
        match reading_value(name@, *reading) {
            Ok(v) => r == Ok::<u64, JouleProfilerError>(v),
            Err(fault) => r matches Err(e) && e@ == fault,
        },
{
    match reading {
        CounterReading::Text(t) => {
            let token = trim(t.as_str());
            match parse_u64(token) {
                Ok(v) => Ok(v),
                Err(fault) => {
                    let mut text = String::from_str("Invalid energy value '");
                    text.append(token);
                    text.append("' in domain '");
                    text.append(name);
                    text.append("': ");
                    text.append(fault.describe());
                    Err(JouleProfilerError::ParseEnergyError(text))
                },
            }
        },
        CounterReading::Denied => Err(JouleProfilerError::InsufficientPermissions),
        CounterReading::Failed(reason) => {
            let mut text = String::from_str("Failed to read energy from domain '");
            text.append(name);
            text.append("': ");
            text.append(reason.as_str());
            Err(JouleProfilerError::RaplReadError(text))
        },
    }
}

/// The snapshot that the readings `readings` of the counters `domains`
/// make, reading `i` being that of counter `i`, stamped with the time
/// `timestamp_us`.
///
/// A snapshot of no counters is refused. The first counter that could
/// not be read, or whose text is not a number, decides the failure.
pub fn read_snapshot(
    domains: &[&RaplDomain],
    readings: &Vec<CounterReading>,
    timestamp_us: u128,
) -> (r: Result<EnergySnapshot, JouleProfilerError>)
    ensures
        domains@.len() == 0 ==> (r matches Err(e) && e@ == Failure::NoDomains),
        domains@.len() > 0 ==> match values_by_path(domains@, readings@, domains@.len()) {
            Ok(values) => r matches Ok(s) && s.energies_uj@ == values && s.timestamp_us
                == timestamp_us,
            Err(fault) => r matches Err(e) && e@ == fault,
        },
{
    if domains.len() == 0 {
        return Err(JouleProfilerError::NoDomains);
    }
    let mut map = CounterMap::new();
    let mut i: usize = 0;
    while i < domains.len()
        invariant
            i <= domains@.len(),
            values_by_path(domains@, readings@, i as nat) == Ok::<Map<Seq<char>, u64>, Failure>(
                map@,
            ),
        decreases domains@.len() - i,
    {
        let d = domains[i];
        proof {
            lemma_values_fault_stays(domains@, readings@, (i + 1) as nat, domains@.len());
        }
        let value = if i < readings.len() {
            match parse_reading(d.name.as_str(), &readings[i]) {
                Ok(v) => v,
                Err(e) => {
                    return Err(e);
                },
            }
        } else {
            let mut text = String::from_str("Failed to read energy from domain '");
            text.append(d.name.as_str());
            text.append("': ");
            text.append("no reading");
            return Err(JouleProfilerError::RaplReadError(text));
        };
        map.insert(d.path.clone(), value);
        i += 1;
    }
    Ok(EnergySnapshot { energies_uj: map, timestamp_us })
}

/// The text that reports a single counter that could not be read.
pub open spec fn unreadable_counter_text(name: Seq<char>, reason: Seq<char>) -> Seq<char> {
    "Failed to read "@ + name + ": "@ + reason
}

/// The text that reports a single counter whose text is not a number.
pub open spec fn bad_counter_text(token: Seq<char>, name: Seq<char>) -> Seq<char> {
    "Invalid energy value '"@ + token + "' in domain "@ + name
}

/// The value of the counter `domain` alone from what reading it gave.
pub fn read_energy(domain: &RaplDomain, reading: &CounterReading) -> (r: Result<
    u64,
    JouleProfilerError,
>)
    ensures
        match *reading {
            CounterReading::Text(t) => match parse_decimal(trimmed(t@), u64::MAX as nat) {
                Ok(n) => r == Ok::<u64, JouleProfilerError>(n as u64),
                Err(_) => r matches Err(e) && e@ == Failure::ParseEnergyError(
                    bad_counter_text(trimmed(t@), domain.name@),
                ),
            },
            CounterReading::Denied => r matches Err(e) && e@ == Failure::InsufficientPermissions,
            CounterReading::Failed(reason) => r matches Err(e) && e@ == Failure::RaplReadError(
                unreadable_counter_text(domain.name@, reason@),
            ),
        },
{
    match reading {
        CounterReading::Text(t) => {
            let token = trim(t.as_str());
            match parse_u64(token) {
                Ok(v) => Ok(v),
                Err(_) => {
                    let mut text = String::from_str("Invalid energy value '");
                    text.append(token);
                    text.append("' in domain ");
                    text.append(domain.name.as_str());
                    Err(JouleProfilerError::ParseEnergyError(text))
                },
            }
        },
        CounterReading::Denied => Err(JouleProfilerError::InsufficientPermissions),
        CounterReading::Failed(reason) => {
            let mut text = String::from_str("Failed to read ");
            text.append(domain.name.as_str());
            text.append(": ");
            text.append(reason.as_str());
            Err(JouleProfilerError::RaplReadError(text))
        },
    }
}

} // verus!
