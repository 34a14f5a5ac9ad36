use joule_profiler::counter_map::CounterMap;
use joule_profiler::errors::JouleProfilerError;
use joule_profiler::rapl::domain::RaplDomain;
use joule_profiler::rapl::snapshot::{
    compute_energy_diff, read_energy, read_snapshot, CounterReading, EnergySnapshot,
};

#[test]
fn test_snapshot_diff_normal() {
    let mut before_map = CounterMap::new();
    before_map.insert("domain1".to_string(), 1000);
    before_map.insert("domain2".to_string(), 2000);

    let before = EnergySnapshot {
        energies_uj: before_map,
        timestamp_us: 1000000,
    };

    let mut after_map = CounterMap::new();
    after_map.insert("domain1".to_string(), 1500);
    after_map.insert("domain2".to_string(), 2300);

    let after = EnergySnapshot {
        energies_uj: after_map,
        timestamp_us: 1100000,
    };

    let diff = after.diff(&before).unwrap();
    assert_eq!(diff.get("domain1"), Some(500));
    assert_eq!(diff.get("domain2"), Some(300));
    assert_eq!(after.duration_us(&before), 100000);
}

#[test]
fn test_snapshot_diff_overflow() {
    let mut before_map = CounterMap::new();
    before_map.insert("domain1".to_string(), u64::MAX - 100);

    let before = EnergySnapshot {
        energies_uj: before_map,
        timestamp_us: 1000000,
    };

    let mut after_map = CounterMap::new();
    after_map.insert("domain1".to_string(), 200);

    let after = EnergySnapshot {
        energies_uj: after_map,
        timestamp_us: 1100000,
    };

    // the reading went backwards and no range is known: the wrap cannot be corrected
    let diff = after.diff(&before);
    assert!(matches!(diff, Err(JouleProfilerError::CounterOverflow)));
}

fn snapshot(entries: &[(&str, u64)], timestamp_us: u128) -> EnergySnapshot {
    let mut map = CounterMap::new();
    for (k, v) in entries {
        map.insert(k.to_string(), *v);
    }
    EnergySnapshot {
        energies_uj: map,
        timestamp_us,
    }
}

fn domain(path: &str, name: &str, socket: u32, max: Option<u64>) -> RaplDomain {
    RaplDomain {
        path: path.to_string(),
        name: name.to_string(),
        socket,
        max_energy_uj: max,
    }
}

#[test]
fn snapshot_diff_leaves_out_what_only_one_side_has() {
    let before = snapshot(&[("a", 1), ("b", 2)], 0);
    let after = snapshot(&[("b", 5), ("c", 9)], 10);
    let diff = after.diff(&before).unwrap();
    assert_eq!(diff.len(), 1);
    assert_eq!(diff.get("b"), Some(3));
    assert_eq!(diff.get("a"), None);
    assert_eq!(diff.get("c"), None);
}

#[test]
fn duration_us_is_never_negative() {
    let early = snapshot(&[], 5);
    let late = snapshot(&[], 12);
    assert_eq!(late.duration_us(&early), 7);
    assert_eq!(early.duration_us(&late), 0);
    assert_eq!(early.duration_us(&early), 0);
}

#[test]
fn compute_energy_diff_by_name() {
    let d1 = domain("/p0", "package-0", 0, Some(1000));
    let d2 = domain("/c0", "core", 0, None);
    let before = snapshot(&[("/p0", 900), ("/c0", 10)], 0);
    let after = snapshot(&[("/p0", 100), ("/c0", 25)], 1000);
    let diff = compute_energy_diff(&after, &before, &[&d1, &d2]).unwrap();
    assert_eq!(diff.get("package-0"), Some(200));
    assert_eq!(diff.get("core"), Some(15));
    assert_eq!(diff.len(), 2);
}

#[test]
fn compute_energy_diff_without_range_cannot_correct_a_wrap() {
    let d = domain("/c0", "core", 0, None);
    let before = snapshot(&[("/c0", u64::MAX - 9)], 0);
    let after = snapshot(&[("/c0", 5)], 1);
    assert!(matches!(
        compute_energy_diff(&after, &before, &[&d]),
        Err(JouleProfilerError::CounterOverflow)
    ));
}

#[test]
fn compute_energy_diff_accepts_a_wrap_of_at_most_half_the_range() {
    let d = domain("/p0", "package-0", 0, Some(10000));
    let before = snapshot(&[("/p0", 5000)], 0);
    let after = snapshot(&[("/p0", 0)], 1);
    let diff = compute_energy_diff(&after, &before, &[&d]).unwrap();
    assert_eq!(diff.get("package-0"), Some(5000));

    let before = snapshot(&[("/p0", 4999)], 0);
    assert!(matches!(
        compute_energy_diff(&after, &before, &[&d]),
        Err(JouleProfilerError::CounterOverflow)
    ));

    let before = snapshot(&[("/p0", 8000)], 0);
    let after = snapshot(&[("/p0", 4000)], 1);
    assert!(matches!(
        compute_energy_diff(&after, &before, &[&d]),
        Err(JouleProfilerError::CounterOverflow)
    ));
}

#[test]
fn compute_energy_diff_first_faulty_counter_decides() {
    let wrapped = domain("/a", "a", 0, None);
    let missing = domain("/b", "b", 0, None);
    let before = snapshot(&[("/a", 9)], 0);
    let after = snapshot(&[("/a", 1)], 1);
    assert!(matches!(
        compute_energy_diff(&after, &before, &[&wrapped, &missing]),
        Err(JouleProfilerError::CounterOverflow)
    ));
    assert!(matches!(
        compute_energy_diff(&after, &before, &[&missing, &wrapped]),
        Err(JouleProfilerError::RaplReadError(_))
    ));
}

#[test]
fn snapshot_diff_fails_when_any_shared_counter_went_backwards() {
    let before = snapshot(&[("a", 1), ("b", 7), ("c", 3)], 0);
    let after = snapshot(&[("a", 5), ("b", 6), ("c", 9)], 1);
    assert!(matches!(
        after.diff(&before),
        Err(JouleProfilerError::CounterOverflow)
    ));
    // a counter that only one side holds is not compared
    let after = snapshot(&[("a", 5), ("c", 9)], 1);
    let diff = after.diff(&before).unwrap();
    assert_eq!(diff.len(), 2);
    assert_eq!(diff.get("a"), Some(4));
    assert_eq!(diff.get("c"), Some(6));
    // equal readings are a difference of zero
    let diff = before.diff(&before).unwrap();
    assert_eq!(diff.get("b"), Some(0));
}

#[test]
fn compute_energy_diff_reports_the_missing_counter() {
    let d = domain("/c0", "core", 0, None);
    let empty = snapshot(&[], 0);
    let full = snapshot(&[("/c0", 5)], 1);
    match compute_energy_diff(&full, &empty, &[&d]) {
        Err(JouleProfilerError::RaplReadError(t)) => {
            assert_eq!(t, "Domain 'core' missing in before snapshot")
        }
        other => panic!("unexpected: {:?}", other),
    }
    match compute_energy_diff(&empty, &full, &[&d]) {
        Err(JouleProfilerError::RaplReadError(t)) => {
            assert_eq!(t, "Domain 'core' missing in after snapshot")
        }
        other => panic!("unexpected: {:?}", other),
    }
}

#[test]
fn compute_energy_diff_reading_beyond_range_is_overflow() {
    let d = domain("/c0", "core", 0, Some(10));
    let before = snapshot(&[("/c0", 50)], 0);
    let after = snapshot(&[("/c0", 5)], 1);
    assert!(matches!(
        compute_energy_diff(&after, &before, &[&d]),
        Err(JouleProfilerError::CounterOverflow)
    ));
}

#[test]
fn read_snapshot_parses_every_reading() {
    let d1 = domain("/p0", "package-0", 0, None);
    let d2 = domain("/c0", "core", 0, None);
    let readings = vec![
        CounterReading::Text("12345\n".to_string()),
        CounterReading::Text("  7 ".to_string()),
    ];
    let s = read_snapshot(&[&d1, &d2], &readings, 99).unwrap();
    assert_eq!(s.timestamp_us, 99);
    assert_eq!(s.energies_uj.get("/p0"), Some(12345));
    assert_eq!(s.energies_uj.get("/c0"), Some(7));
    assert_eq!(s.energies_uj.len(), 2);
}

#[test]
fn read_snapshot_without_counters_fails() {
    let readings = vec![];
    assert!(matches!(
        read_snapshot(&[], &readings, 0),
        Err(JouleProfilerError::NoDomains)
    ));
}

#[test]
fn read_snapshot_first_failure_decides() {
    let d1 = domain("/p0", "package-0", 0, None);
    let d2 = domain("/c0", "core", 0, None);
    let readings = vec![
        CounterReading::Text("12x".to_string()),
        CounterReading::Denied,
    ];
    match read_snapshot(&[&d1, &d2], &readings, 0) {
        Err(JouleProfilerError::ParseEnergyError(t)) => assert_eq!(
            t,
            "Invalid energy value '12x' in domain 'package-0': invalid digit found in string"
        ),
        other => panic!("unexpected: {:?}", other),
    }
    let readings = vec![
        CounterReading::Text("1".to_string()),
        CounterReading::Denied,
    ];
    assert!(matches!(
        read_snapshot(&[&d1, &d2], &readings, 0),
        Err(JouleProfilerError::InsufficientPermissions)
    ));
    let readings = vec![CounterReading::Failed("gone".to_string())];
    match read_snapshot(&[&d1, &d2], &readings, 0) {
        Err(JouleProfilerError::RaplReadError(t)) => {
            assert_eq!(t, "Failed to read energy from domain 'package-0': gone")
        }
        other => panic!("unexpected: {:?}", other),
    }
    let readings = vec![CounterReading::Text("1".to_string())];
    match read_snapshot(&[&d1, &d2], &readings, 0) {
        Err(JouleProfilerError::RaplReadError(t)) => {
            assert_eq!(t, "Failed to read energy from domain 'core': no reading")
        }
        other => panic!("unexpected: {:?}", other),
    }
}

#[test]
fn read_snapshot_number_faults() {
    let d = domain("/p0", "p", 0, None);
    let empty = vec![CounterReading::Text(" \n".to_string())];
    match read_snapshot(&[&d], &empty, 0) {
        Err(JouleProfilerError::ParseEnergyError(t)) => assert_eq!(
            t,
            "Invalid energy value '' in domain 'p': cannot parse integer from empty string"
        ),
        other => panic!("unexpected: {:?}", other),
    }
    let big = vec![CounterReading::Text("18446744073709551616".to_string())];
    match read_snapshot(&[&d], &big, 0) {
        Err(JouleProfilerError::ParseEnergyError(t)) => assert_eq!(
            t,
            "Invalid energy value '18446744073709551616' in domain 'p': number too large to fit in target type"
        ),
        other => panic!("unexpected: {:?}", other),
    }
    let max = vec![CounterReading::Text("18446744073709551615".to_string())];
    let s = read_snapshot(&[&d], &max, 0).unwrap();
    assert_eq!(s.energies_uj.get("/p0"), Some(u64::MAX));
    // the messages are those of the standard library
    assert_eq!(
        "".parse::<u64>().unwrap_err().to_string(),
        "cannot parse integer from empty string"
    );
    assert_eq!(
        "12x".parse::<u64>().unwrap_err().to_string(),
        "invalid digit found in string"
    );
    assert_eq!(
        "18446744073709551616".parse::<u64>().unwrap_err().to_string(),
        "number too large to fit in target type"
    );
    // an overflow that stands before a bad digit is reported as overflow
    let mixed = vec![CounterReading::Text("99999999999999999999x".to_string())];
    match read_snapshot(&[&d], &mixed, 0) {
        Err(JouleProfilerError::ParseEnergyError(t)) => {
            assert!(t.ends_with("number too large to fit in target type"))
        }
        other => panic!("unexpected: {:?}", other),
    }
    assert_eq!(
        "99999999999999999999x".parse::<u64>().unwrap_err().to_string(),
        "number too large to fit in target type"
    );
}

#[test]
fn read_energy_of_one_counter() {
    let d = domain("/p0", "package-0", 0, None);
    assert_eq!(
        read_energy(&d, &CounterReading::Text(" 42\n".to_string())).unwrap(),
        42
    );
    match read_energy(&d, &CounterReading::Text("4 2".to_string())) {
        Err(JouleProfilerError::ParseEnergyError(t)) => {
            assert_eq!(t, "Invalid energy value '4 2' in domain package-0")
        }
        other => panic!("unexpected: {:?}", other),
    }
    match read_energy(&d, &CounterReading::Failed("io".to_string())) {
        Err(JouleProfilerError::RaplReadError(t)) => {
            assert_eq!(t, "Failed to read package-0: io")
        }
        other => panic!("unexpected: {:?}", other),
    }
    assert!(matches!(
        read_energy(&d, &CounterReading::Denied),
        Err(JouleProfilerError::InsufficientPermissions)
    ));
}

#[test]
fn counter_map_keeps_first_insertion_order() {
    let mut m = CounterMap::new();
    assert!(m.is_empty());
    m.insert("b".to_string(), 1);
    m.insert("a".to_string(), 2);
    m.insert("b".to_string(), 3);
    assert_eq!(m.len(), 2);
    assert_eq!(m.key_at(0), "b");
    assert_eq!(m.value_at(0), 3);
    assert_eq!(m.key_at(1), "a");
    assert_eq!(m.value_at(1), 2);
    assert!(m.contains_key("a"));
    assert!(!m.contains_key("c"));
    let copy = m.clone();
    assert_eq!(copy.get("b"), Some(3));
    assert_eq!(copy.len(), 2);
}
