use joule_profiler::errors::JouleProfilerError;
use joule_profiler::measure::common::energy_diff;

#[test]
fn test_energy_diff_normal() {
    let result = energy_diff(1000, 1500, Some(10000), "test").unwrap();
    assert_eq!(result, 500);
}

#[test]
fn test_energy_diff_overflow_with_max() {
    let result = energy_diff(9500, 500, Some(10000), "test").unwrap();
    assert_eq!(result, 1000);
}

#[test]
fn test_energy_diff_overflow_without_max() {
    let result = energy_diff(9500, 500, None, "test");
    assert!(result.is_err());

    if let Err(err) = result {
        assert!(matches!(err, JouleProfilerError::CounterOverflow));
    }
}

#[test]
fn test_energy_diff_suspicious_overflow() {
    let result = energy_diff(8000, 4000, Some(10000), "test");
    assert!(result.is_err(), "Expected error for suspicious overflow");

    if let Err(err) = result {
        assert!(
            matches!(err, JouleProfilerError::CounterOverflow),
            "Expected CounterOverflow error"
        );
    }
}

#[test]
fn test_energy_diff_zero() {
    let result = energy_diff(1000, 1000, Some(10000), "test").unwrap();
    assert_eq!(result, 0);
}

#[test]
fn test_energy_diff_edge_case_max_boundary() {
    let result = energy_diff(9999, 0, Some(10000), "test").unwrap();
    assert_eq!(result, 1);
}

#[test]
fn test_energy_diff_overflow_exactly_50_percent() {
    let result = energy_diff(5000, 0, Some(10000), "test").unwrap();
    assert_eq!(result, 5000);
}

#[test]
fn test_energy_diff_overflow_just_over_50_percent() {
    let result = energy_diff(4999, 0, Some(10000), "test");
    assert!(result.is_err(), "Expected error for overflow just over 50%");

    if let Err(err) = result {
        assert!(matches!(err, JouleProfilerError::CounterOverflow));
    }
}

#[test]
fn test_energy_diff_large_overflow() {
    let result = energy_diff(9900, 9000, Some(10000), "test");
    assert!(result.is_err(), "Expected error for large overflow");

    if let Err(err) = result {
        assert!(matches!(err, JouleProfilerError::CounterOverflow));
    }
}

#[test]
fn energy_diff_forward_ignores_the_range() {
    assert_eq!(energy_diff(0, u64::MAX, None, "x").unwrap(), u64::MAX);
    assert_eq!(energy_diff(7, 7, None, "x").unwrap(), 0);
    assert_eq!(energy_diff(10, 25, Some(3), "x").unwrap(), 15);
}

#[test]
fn energy_diff_wrap_at_full_range_does_not_overflow() {
    // end + max would not fit 64 bits, the difference does.
    let max = u64::MAX;
    let start = u64::MAX - 1;
    let end = 5;
    assert_eq!(energy_diff(start, end, Some(max), "x").unwrap(), 6);
}

#[test]
fn energy_diff_reading_beyond_range_is_overflow() {
    // start lies beyond the stated range: the corrected difference would be negative.
    let result = energy_diff(100, 0, Some(10), "x");
    assert!(matches!(result, Err(JouleProfilerError::CounterOverflow)));
}

#[test]
fn energy_diff_half_range_rounds_down() {
    // half of 9 is 4
    assert_eq!(energy_diff(5, 0, Some(9), "x").unwrap(), 4);
    assert!(energy_diff(4, 0, Some(9), "x").is_err());
}
