use joule_profiler::cli::PhasesArgs;
use joule_profiler::cmd::phases::run_phases;
use joule_profiler::cmd::RunMode;
use joule_profiler::config::Config;
use joule_profiler::counter_map::CounterMap;
use joule_profiler::errors::JouleProfilerError;
use joule_profiler::measure::batch::BatchStep;
use joule_profiler::measure::common::{build_max_map, PhasesResult};
use joule_profiler::measure::pattern::{token_label, Captured, TokenPattern};
use joule_profiler::measure::phases::{
    assemble_anchor_phases, assemble_phases, duration_between_ms, measure_phases_iterations,
    measure_phases_once, DetectedToken, PhaseEvent, PhaseRequest, PhaseRun, PhaseStep,
};
use joule_profiler::rapl::domain::RaplDomain;
use joule_profiler::rapl::snapshot::EnergySnapshot;

fn create_mock_domain(name: &str, socket: u32) -> RaplDomain {
    RaplDomain {
        path: format!("/sys/class/powercap/intel-rapl:0/{}/energy_uj", name),
        name: name.to_string(),
        socket,
        max_energy_uj: Some(10_000_000),
    }
}

fn pattern_config(pattern: &str, cmd: Vec<String>) -> Config {
    Config {
        sockets: vec![0],
        json: false,
        csv: false,
        iterations: None,
        jouleit_file: None,
        output_file: None,
        token_pattern: Some(pattern.to_string()),
        token_start: None,
        token_end: None,
        cmd,
    }
}

fn anchor_config(start: Option<&str>, end: Option<&str>) -> Config {
    Config {
        sockets: vec![0],
        json: false,
        csv: false,
        iterations: None,
        jouleit_file: None,
        output_file: None,
        token_pattern: None,
        token_start: start.map(|s| s.to_string()),
        token_end: end.map(|s| s.to_string()),
        cmd: vec!["prog".to_string()],
    }
}

#[test]
fn test_measure_phases_iterations_zero() {
    let config = Config {
        sockets: vec![0],
        json: false,
        csv: false,
        iterations: Some(0),
        jouleit_file: None,
        output_file: None,
        token_pattern: Some("_.*".to_string()),
        token_start: None,
        token_end: None,
        cmd: vec!["echo".to_string(), "test".to_string()],
    };

    let domains = vec![create_mock_domain("package-0", 0)];

    let result = measure_phases_iterations(&config, &domains, 0);
    assert!(result.is_err());

    if let Err(err) = result {
        assert!(matches!(err, JouleProfilerError::InvalidIterations(0)));
    }
}

#[test]
fn phases_test_no_command() {
    let config = Config {
        sockets: vec![0],
        json: false,
        csv: false,
        iterations: None,
        jouleit_file: None,
        output_file: None,
        token_pattern: Some("_.*".to_string()),
        token_start: None,
        token_end: None,
        cmd: vec![],
    };

    let domains = vec![create_mock_domain("package-0", 0)];

    let result = measure_phases_once(&config, &domains);
    assert!(result.is_err());

    if let Err(err) = result {
        assert!(matches!(err, JouleProfilerError::NoCommand));
    }
}

#[test]
fn test_invalid_regex() {
    let config = Config {
        sockets: vec![0],
        json: false,
        csv: false,
        iterations: None,
        jouleit_file: None,
        output_file: None,
        token_pattern: Some("[invalid(".to_string()), // Invalid regex
        token_start: None,
        token_end: None,
        cmd: vec!["echo".to_string(), "test".to_string()],
    };

    let domains = vec![create_mock_domain("package-0", 0)];

    let result = measure_phases_once(&config, &domains);
    assert!(result.is_err());
}

#[test]
fn invalid_regex_names_the_pattern() {
    let config = pattern_config("[invalid(", vec!["echo".to_string()]);
    let domains = vec![create_mock_domain("package-0", 0)];
    match measure_phases_once(&config, &domains) {
        Err(JouleProfilerError::InvalidPattern(t)) => {
            assert!(t.starts_with("[invalid(: "));
            assert!(t.len() > "[invalid(: ".len());
        }
        Err(other) => panic!("unexpected: {:?}", other),
        Ok(_) => panic!("a run was prepared"),
    }
}

#[test]
fn phases_without_any_matcher_fail() {
    let config = anchor_config(None, None);
    let domains = vec![create_mock_domain("package-0", 0)];
    match measure_phases_once(&config, &domains) {
        Err(JouleProfilerError::TokenNotFound(t)) => {
            assert_eq!(t, "token_pattern not configured")
        }
        Err(other) => panic!("unexpected: {:?}", other),
        Ok(_) => panic!("a run was prepared"),
    }
}

#[test]
fn phases_without_counters_on_the_sockets_fail() {
    let mut config = pattern_config("_.*", vec!["echo".to_string()]);
    config.sockets = vec![99];
    let domains = vec![create_mock_domain("package-0", 0)];
    assert!(matches!(
        measure_phases_once(&config, &domains),
        Err(JouleProfilerError::NoDomains)
    ));
}

fn snapshot(value: u64, timestamp_us: u128) -> EnergySnapshot {
    let mut map = CounterMap::new();
    map.insert(
        "/sys/class/powercap/intel-rapl:0/package-0/energy_uj".to_string(),
        value,
    );
    EnergySnapshot {
        energies_uj: map,
        timestamp_us,
    }
}

fn token(label: &str, value: u64, timestamp_us: u128, line: usize) -> DetectedToken {
    DetectedToken {
        token: label.to_string(),
        snapshot: snapshot(value, timestamp_us),
        line_number: line,
    }
}

#[test]
fn assembly_without_tokens_gives_one_phase() {
    let d = create_mock_domain("package-0", 0);
    let doms = [&d];
    let max = build_max_map(&doms);
    let start = snapshot(100, 1_000_000);
    let end = snapshot(700, 4_500_999);
    let res = assemble_phases(&doms, &max, &start, &end, &vec![], 0).unwrap();
    assert_eq!(res.phases.len(), 1);
    let p = &res.phases[0];
    assert_eq!(p.name, "global (START -> END)");
    assert_eq!(p.start_token.as_deref(), Some("START"));
    assert_eq!(p.end_token.as_deref(), Some("END"));
    assert_eq!(p.start_line, None);
    assert_eq!(p.end_line, None);
    assert_eq!(p.result.energy_uj.get("PACKAGE-0_0"), Some(600));
    assert_eq!(p.result.duration_ms, 3500);
    assert_eq!(p.result.exit_code, 0);
}

#[test]
fn assembly_with_tokens_gives_two_more_phases_than_tokens() {
    let d = create_mock_domain("package-0", 0);
    let doms = [&d];
    let max = build_max_map(&doms);
    let start = snapshot(100, 1_000_000);
    let end = snapshot(1000, 9_000_000);
    let tokens = vec![
        token("__A__", 150, 2_000_000, 3),
        token("__B__", 400, 5_000_000, 8),
        token("__A__", 900, 8_000_000, 20),
    ];
    let res = assemble_phases(&doms, &max, &start, &end, &tokens, 7).unwrap();
    assert_eq!(res.phases.len(), 5);

    let names: Vec<&str> = res.phases.iter().map(|p| p.name.as_str()).collect();
    assert_eq!(
        names,
        vec![
            "global (START -> END)",
            "START -> __A__",
            "__A__ -> __B__",
            "__B__ -> __A__",
            "__A__ -> END",
        ]
    );
    let energy: Vec<Option<u64>> = res
        .phases
        .iter()
        .map(|p| p.result.energy_uj.get("PACKAGE-0_0"))
        .collect();
    assert_eq!(
        energy,
        vec![Some(900), Some(50), Some(250), Some(500), Some(100)]
    );
    let durations: Vec<u128> = res.phases.iter().map(|p| p.result.duration_ms).collect();
    assert_eq!(durations, vec![8000, 1000, 3000, 3000, 1000]);
    let lines: Vec<(Option<usize>, Option<usize>)> = res
        .phases
        .iter()
        .map(|p| (p.start_line, p.end_line))
        .collect();
    assert_eq!(
        lines,
        vec![
            (None, None),
            (None, Some(3)),
            (Some(3), Some(8)),
            (Some(8), Some(20)),
            (Some(20), None),
        ]
    );
    let bounds: Vec<(Option<&str>, Option<&str>)> = res
        .phases
        .iter()
        .map(|p| (p.start_token.as_deref(), p.end_token.as_deref()))
        .collect();
    assert_eq!(
        bounds,
        vec![
            (Some("START"), Some("END")),
            (Some("START"), Some("__A__")),
            (Some("__A__"), Some("__B__")),
            (Some("__B__"), Some("__A__")),
            (Some("__A__"), Some("END")),
        ]
    );
    assert!(res.phases.iter().all(|p| p.result.exit_code == 7));
}

#[test]
fn assembly_with_one_token_gives_three_phases() {
    let d = create_mock_domain("package-0", 0);
    let doms = [&d];
    let max = build_max_map(&doms);
    let start = snapshot(0, 0);
    let end = snapshot(10, 10_000);
    let tokens = vec![token("x", 4, 4_000, 1)];
    let res = assemble_phases(&doms, &max, &start, &end, &tokens, 0).unwrap();
    assert_eq!(res.phases.len(), 3);
    assert_eq!(res.phases[1].name, "START -> x");
    assert_eq!(res.phases[2].name, "x -> END");
    assert_eq!(res.phases[1].result.duration_ms, 4);
    assert_eq!(res.phases[2].result.duration_ms, 6);
}

#[test]
fn assembly_fails_with_the_first_phase_that_cannot_be_measured() {
    let d = create_mock_domain("package-0", 0);
    let doms = [&d];
    let max = build_max_map(&doms);
    let start = snapshot(100, 0);
    let end = snapshot(4_000_000, 9);
    // the second token reads far below the first: with a range of 10_000_000
    // the corrected difference is 6_000_000, beyond half the range
    let tokens = vec![token("a", 5_000_000, 1, 1), token("b", 1_000_000, 2, 2)];
    assert!(matches!(
        assemble_phases(&doms, &max, &start, &end, &tokens, 0),
        Err(JouleProfilerError::CounterOverflow)
    ));
}

#[test]
fn duration_between_snapshots_is_floored_at_zero() {
    let a = snapshot(0, 5_000);
    let b = snapshot(0, 7_999);
    assert_eq!(duration_between_ms(&a, &b), 2);
    assert_eq!(duration_between_ms(&b, &a), 0);
    assert_eq!(duration_between_ms(&a, &a), 0);
}

#[test]
fn anchor_phases_fail_on_inverted_order() {
    let d = create_mock_domain("package-0", 0);
    let doms = [&d];
    let max = build_max_map(&doms);
    let start = snapshot(0, 0);
    let end = snapshot(100, 100_000);
    let start_hit = Some(token("BEGIN", 50, 60_000, 9));
    let end_hit = Some(token("STOP", 20, 30_000, 4));
    match assemble_anchor_phases(&doms, &max, &start, &end, &start_hit, &end_hit, 0) {
        Err(JouleProfilerError::InvalidTokenOrder { start, end }) => {
            assert_eq!(start, "BEGIN");
            assert_eq!(end, "STOP");
        }
        other => panic!("unexpected: {:?}", other),
    }
}

#[test]
fn anchor_phases_inverted_order_wins_over_counter_faults() {
    let d = create_mock_domain("package-0", 0);
    let doms = [&d];
    let max = build_max_map(&doms);
    // the whole run cannot be measured, and the anchors are inverted
    let start = snapshot(5_000_000, 0);
    let end = snapshot(1_000_000, 100_000);
    let start_hit = Some(token("BEGIN", 50, 60_000, 9));
    let end_hit = Some(token("STOP", 20, 30_000, 4));
    assert!(matches!(
        assemble_anchor_phases(&doms, &max, &start, &end, &start_hit, &end_hit, 0),
        Err(JouleProfilerError::InvalidTokenOrder { .. })
    ));
}

#[test]
fn anchor_phases_skip_what_rests_on_a_missing_anchor() {
    let d = create_mock_domain("package-0", 0);
    let doms = [&d];
    let max = build_max_map(&doms);
    let start = snapshot(0, 0);
    let end = snapshot(100, 100_000);

    let both = assemble_anchor_phases(
        &doms,
        &max,
        &start,
        &end,
        &Some(token("BEGIN", 20, 30_000, 4)),
        &Some(token("STOP", 50, 60_000, 9)),
        0,
    )
    .unwrap();
    let names: Vec<&str> = both.phases.iter().map(|p| p.name.as_str()).collect();
    assert_eq!(
        names,
        vec![
            "global (START -> END)",
            "START -> BEGIN",
            "BEGIN -> STOP",
            "STOP -> END"
        ]
    );
    let energy: Vec<Option<u64>> = both
        .phases
        .iter()
        .map(|p| p.result.energy_uj.get("PACKAGE-0_0"))
        .collect();
    assert_eq!(energy, vec![Some(100), Some(20), Some(30), Some(50)]);

    let only_start = assemble_anchor_phases(
        &doms,
        &max,
        &start,
        &end,
        &Some(token("BEGIN", 20, 30_000, 4)),
        &None,
        0,
    )
    .unwrap();
    let names: Vec<&str> = only_start.phases.iter().map(|p| p.name.as_str()).collect();
    assert_eq!(names, vec!["global (START -> END)", "START -> BEGIN"]);

    let only_end = assemble_anchor_phases(
        &doms,
        &max,
        &start,
        &end,
        &None,
        &Some(token("STOP", 50, 60_000, 9)),
        0,
    )
    .unwrap();
    let names: Vec<&str> = only_end.phases.iter().map(|p| p.name.as_str()).collect();
    assert_eq!(names, vec!["global (START -> END)", "STOP -> END"]);

    let none = assemble_anchor_phases(&doms, &max, &start, &end, &None, &None, 0).unwrap();
    assert_eq!(none.phases.len(), 1);
}

#[test]
fn anchor_phases_equal_times_are_in_order() {
    let d = create_mock_domain("package-0", 0);
    let doms = [&d];
    let max = build_max_map(&doms);
    let start = snapshot(0, 0);
    let end = snapshot(100, 100_000);
    let res = assemble_anchor_phases(
        &doms,
        &max,
        &start,
        &end,
        &Some(token("BEGIN", 20, 30_000, 4)),
        &Some(token("STOP", 20, 30_000, 4)),
        0,
    )
    .unwrap();
    assert_eq!(res.phases.len(), 4);
    assert_eq!(res.phases[2].result.duration_ms, 0);
}

#[test]
fn pattern_label_is_the_group_or_the_whole_match() {
    let with_group = TokenPattern::compile("__([A-Z_]+)__").unwrap();
    assert_eq!(
        with_group.find_label("begin __INIT__ now").as_deref(),
        Some("INIT")
    );
    assert_eq!(with_group.find_label("nothing here"), None);

    let without_group = TokenPattern::compile("__[A-Z0-9_]+__").unwrap();
    assert_eq!(
        without_group.find_label("begin __INIT__ now").as_deref(),
        Some("__INIT__")
    );
    // the leftmost match is taken
    assert_eq!(
        without_group.find_label("__A__ __B__").as_deref(),
        Some("__A__")
    );

    // a group that took no part in the match gives way to the whole match
    let optional = TokenPattern::compile("a(b)?c").unwrap();
    assert_eq!(optional.find_label("xacx").as_deref(), Some("ac"));
    assert_eq!(optional.find_label("xabcx").as_deref(), Some("b"));

    let c = with_group.captures("x __WORK__").unwrap();
    assert_eq!(c.whole, "__WORK__");
    assert_eq!(c.group.as_deref(), Some("WORK"));
}

#[test]
fn token_label_prefers_the_group() {
    let c = Captured {
        whole: "__A__".to_string(),
        group: Some("A".to_string()),
    };
    assert_eq!(token_label(c), "A");
    let c = Captured {
        whole: "__A__".to_string(),
        group: None,
    };
    assert_eq!(token_label(c), "__A__");
}

#[test]
fn pattern_refusal_carries_the_message_of_the_compiler() {
    match TokenPattern::compile("a{2,1}") {
        Err(JouleProfilerError::InvalidPattern(t)) => {
            assert!(t.starts_with("a{2,1}: "));
            assert!(t.contains("repetition"));
        }
        Err(other) => panic!("unexpected: {:?}", other),
        Ok(_) => panic!("compiled"),
    }
    // an accepted pattern finds what it is a pattern of
    let p = TokenPattern::compile("a{1,2}").unwrap();
    assert_eq!(p.find_label("xaaay").as_deref(), Some("aa"));
}

#[test]
fn pattern_compile_refuses_bad_patterns() {
    assert!(TokenPattern::compile("_.*").is_ok());
    match TokenPattern::compile("foo(bar") {
        Err(JouleProfilerError::InvalidPattern(t)) => assert!(t.starts_with("foo(bar: ")),
        Err(other) => panic!("unexpected: {:?}", other),
        Ok(_) => panic!("compiled"),
    }
}

fn expect_run<'a>(step: PhaseStep<'a>) -> PhaseRun<'a> {
    match step {
        PhaseStep::Continue(run) => run,
        PhaseStep::Finished(_) => panic!("finished early"),
        PhaseStep::Failed(e) => panic!("failed: {:?}", e),
    }
}

fn expect_result(step: PhaseStep) -> PhasesResult {
    match step {
        PhaseStep::Finished(res) => res,
        PhaseStep::Continue(_) => panic!("not finished"),
        PhaseStep::Failed(e) => panic!("failed: {:?}", e),
    }
}

#[test]
fn pattern_run_snapshots_on_every_match() {
    let config = pattern_config("__([A-Z]+)__", vec!["prog".to_string()]);
    let domains = vec![create_mock_domain("package-0", 0)];
    let run = measure_phases_once(&config, &domains).unwrap();
    assert_eq!(run.request(), PhaseRequest::ReadSnapshot);

    let run = expect_run(run.advance(PhaseEvent::Snapshot(snapshot(100, 1_000))));
    assert_eq!(run.request(), PhaseRequest::Spawn);
    let run = expect_run(run.advance(PhaseEvent::Started));
    assert_eq!(run.request(), PhaseRequest::NextLine);

    let run = expect_run(run.advance(PhaseEvent::Line("hello".to_string())));
    assert_eq!(run.request(), PhaseRequest::NextLine);

    let run = expect_run(run.advance(PhaseEvent::Line("__INIT__".to_string())));
    assert_eq!(run.request(), PhaseRequest::ReadSnapshot);
    let run = expect_run(run.advance(PhaseEvent::Snapshot(snapshot(150, 2_000))));
    assert_eq!(run.request(), PhaseRequest::NextLine);

    let run = expect_run(run.advance(PhaseEvent::Line("work".to_string())));
    // the same label again is a boundary of its own
    let run = expect_run(run.advance(PhaseEvent::Line("again __INIT__".to_string())));
    assert_eq!(run.request(), PhaseRequest::ReadSnapshot);
    let run = expect_run(run.advance(PhaseEvent::Snapshot(snapshot(400, 5_000))));

    let run = expect_run(run.advance(PhaseEvent::OutputEnded));
    assert_eq!(run.request(), PhaseRequest::Wait);
    let run = expect_run(run.advance(PhaseEvent::Exited(Some(2))));
    assert_eq!(run.request(), PhaseRequest::ReadSnapshot);

    let res = expect_result(run.advance(PhaseEvent::Snapshot(snapshot(1000, 9_000))));
    let names: Vec<&str> = res.phases.iter().map(|p| p.name.as_str()).collect();
    assert_eq!(
        names,
        vec![
            "global (START -> END)",
            "START -> INIT",
            "INIT -> INIT",
            "INIT -> END"
        ]
    );
    assert_eq!(res.phases[1].end_line, Some(2));
    assert_eq!(res.phases[2].start_line, Some(2));
    assert_eq!(res.phases[2].end_line, Some(4));
    assert_eq!(res.phases[2].result.energy_uj.get("PACKAGE-0_0"), Some(250));
    assert_eq!(res.phases[2].result.duration_ms, 3);
    assert!(res.phases.iter().all(|p| p.result.exit_code == 2));
}

#[test]
fn pattern_run_without_matches_gives_the_global_phase() {
    let config = pattern_config("__([A-Z]+)__", vec!["prog".to_string()]);
    let domains = vec![create_mock_domain("package-0", 0)];
    let run = measure_phases_once(&config, &domains).unwrap();
    let run = expect_run(run.advance(PhaseEvent::Snapshot(snapshot(100, 1_000))));
    let run = expect_run(run.advance(PhaseEvent::Started));
    let run = expect_run(run.advance(PhaseEvent::Line("nothing".to_string())));
    let run = expect_run(run.advance(PhaseEvent::OutputEnded));
    // a command that a signal ended has no exit code: it is reported as 1
    let run = expect_run(run.advance(PhaseEvent::Exited(None)));
    let res = expect_result(run.advance(PhaseEvent::Snapshot(snapshot(300, 3_000))));
    assert_eq!(res.phases.len(), 1);
    assert_eq!(res.phases[0].result.exit_code, 1);
    assert_eq!(res.phases[0].result.energy_uj.get("PACKAGE-0_0"), Some(200));
}

#[test]
fn run_fails_with_the_failure_it_is_told() {
    let config = pattern_config("x", vec!["prog".to_string()]);
    let domains = vec![create_mock_domain("package-0", 0)];
    let run = measure_phases_once(&config, &domains).unwrap();
    let run = expect_run(run.advance(PhaseEvent::Snapshot(snapshot(100, 1_000))));
    let step = run.advance(PhaseEvent::Failed(JouleProfilerError::CommandNotFound(
        "prog".to_string(),
    )));
    assert!(matches!(
        step,
        PhaseStep::Failed(JouleProfilerError::CommandNotFound(c)) if c == "prog"
    ));
}

#[test]
fn run_ignores_events_that_answer_nothing() {
    let config = pattern_config("x", vec!["prog".to_string()]);
    let domains = vec![create_mock_domain("package-0", 0)];
    let run = measure_phases_once(&config, &domains).unwrap();
    let run = expect_run(run.advance(PhaseEvent::Line("x".to_string())));
    assert_eq!(run.request(), PhaseRequest::ReadSnapshot);
    let run = expect_run(run.advance(PhaseEvent::Exited(Some(0))));
    assert_eq!(run.request(), PhaseRequest::ReadSnapshot);
    let run = expect_run(run.advance(PhaseEvent::Snapshot(snapshot(100, 1_000))));
    let run = expect_run(run.advance(PhaseEvent::Snapshot(snapshot(100, 1_000))));
    assert_eq!(run.request(), PhaseRequest::Spawn);
    let run = expect_run(run.advance(PhaseEvent::OutputEnded));
    assert_eq!(run.request(), PhaseRequest::Spawn);
}

#[test]
fn anchor_run_records_the_first_sight_of_each_anchor() {
    let config = anchor_config(Some("BEGIN"), Some("STOP"));
    let domains = vec![create_mock_domain("package-0", 0)];
    let run = measure_phases_once(&config, &domains).unwrap();
    let run = expect_run(run.advance(PhaseEvent::Snapshot(snapshot(0, 0))));
    let run = expect_run(run.advance(PhaseEvent::Started));
    let run = expect_run(run.advance(PhaseEvent::Line("warm up".to_string())));
    assert_eq!(run.request(), PhaseRequest::NextLine);
    let run = expect_run(run.advance(PhaseEvent::Line("now BEGIN work".to_string())));
    assert_eq!(run.request(), PhaseRequest::ReadSnapshot);
    let run = expect_run(run.advance(PhaseEvent::Snapshot(snapshot(20, 30_000))));
    // a second sight of the start anchor asks for nothing
    let run = expect_run(run.advance(PhaseEvent::Line("BEGIN again".to_string())));
    assert_eq!(run.request(), PhaseRequest::NextLine);
    let run = expect_run(run.advance(PhaseEvent::Line("STOP".to_string())));
    assert_eq!(run.request(), PhaseRequest::ReadSnapshot);
    let run = expect_run(run.advance(PhaseEvent::Snapshot(snapshot(50, 60_000))));
    let run = expect_run(run.advance(PhaseEvent::Line("STOP".to_string())));
    assert_eq!(run.request(), PhaseRequest::NextLine);
    let run = expect_run(run.advance(PhaseEvent::OutputEnded));
    let run = expect_run(run.advance(PhaseEvent::Exited(Some(0))));
    let res = expect_result(run.advance(PhaseEvent::Snapshot(snapshot(100, 100_000))));
    let names: Vec<&str> = res.phases.iter().map(|p| p.name.as_str()).collect();
    assert_eq!(
        names,
        vec![
            "global (START -> END)",
            "START -> BEGIN",
            "BEGIN -> STOP",
            "STOP -> END"
        ]
    );
    assert_eq!(res.phases[1].end_line, Some(2));
    assert_eq!(res.phases[2].end_line, Some(4));
    assert_eq!(res.phases[2].result.energy_uj.get("PACKAGE-0_0"), Some(30));
}

#[test]
fn anchor_run_fails_when_the_end_anchor_comes_first_in_time() {
    let config = anchor_config(Some("BEGIN"), Some("STOP"));
    let domains = vec![create_mock_domain("package-0", 0)];
    let run = measure_phases_once(&config, &domains).unwrap();
    let run = expect_run(run.advance(PhaseEvent::Snapshot(snapshot(0, 0))));
    let run = expect_run(run.advance(PhaseEvent::Started));
    let run = expect_run(run.advance(PhaseEvent::Line("STOP".to_string())));
    let run = expect_run(run.advance(PhaseEvent::Snapshot(snapshot(20, 30_000))));
    let run = expect_run(run.advance(PhaseEvent::Line("BEGIN".to_string())));
    let run = expect_run(run.advance(PhaseEvent::Snapshot(snapshot(50, 60_000))));
    let run = expect_run(run.advance(PhaseEvent::OutputEnded));
    let run = expect_run(run.advance(PhaseEvent::Exited(Some(0))));
    let step = run.advance(PhaseEvent::Snapshot(snapshot(100, 100_000)));
    match step {
        PhaseStep::Failed(JouleProfilerError::InvalidTokenOrder { start, end }) => {
            assert_eq!(start, "BEGIN");
            assert_eq!(end, "STOP");
        }
        _ => panic!("the run did not fail with an inverted order"),
    }
}

#[test]
fn anchor_run_with_both_anchors_in_one_line() {
    let config = anchor_config(Some("BEGIN"), Some("STOP"));
    let domains = vec![create_mock_domain("package-0", 0)];
    let run = measure_phases_once(&config, &domains).unwrap();
    let run = expect_run(run.advance(PhaseEvent::Snapshot(snapshot(0, 0))));
    let run = expect_run(run.advance(PhaseEvent::Started));
    let run = expect_run(run.advance(PhaseEvent::Line("BEGIN and STOP".to_string())));
    let run = expect_run(run.advance(PhaseEvent::Snapshot(snapshot(40, 50_000))));
    let run = expect_run(run.advance(PhaseEvent::OutputEnded));
    let run = expect_run(run.advance(PhaseEvent::Exited(Some(0))));
    let res = expect_result(run.advance(PhaseEvent::Snapshot(snapshot(100, 100_000))));
    assert_eq!(res.phases.len(), 4);
    assert_eq!(res.phases[2].name, "BEGIN -> STOP");
    assert_eq!(res.phases[2].result.energy_uj.get("PACKAGE-0_0"), Some(0));
    assert_eq!(res.phases[2].result.duration_ms, 0);
}

#[test]
fn anchor_run_with_a_missing_anchor_skips_its_phases() {
    let config = anchor_config(Some("BEGIN"), Some("STOP"));
    let domains = vec![create_mock_domain("package-0", 0)];
    let run = measure_phases_once(&config, &domains).unwrap();
    let run = expect_run(run.advance(PhaseEvent::Snapshot(snapshot(0, 0))));
    let run = expect_run(run.advance(PhaseEvent::Started));
    let run = expect_run(run.advance(PhaseEvent::Line("STOP".to_string())));
    let run = expect_run(run.advance(PhaseEvent::Snapshot(snapshot(40, 50_000))));
    let run = expect_run(run.advance(PhaseEvent::OutputEnded));
    let run = expect_run(run.advance(PhaseEvent::Exited(Some(0))));
    let res = expect_result(run.advance(PhaseEvent::Snapshot(snapshot(100, 100_000))));
    let names: Vec<&str> = res.phases.iter().map(|p| p.name.as_str()).collect();
    assert_eq!(names, vec!["global (START -> END)", "STOP -> END"]);
}

#[test]
fn batch_of_three_stops_at_the_failure_of_the_second() {
    let config = pattern_config("x", vec!["prog".to_string()]);
    let domains = vec![create_mock_domain("package-0", 0)];
    let batch = measure_phases_iterations(&config, &domains, 3).unwrap();
    assert_eq!(batch.next_index(), 0);
    let first = PhasesResult { phases: vec![] };
    let batch = match batch.record(Ok(first)) {
        BatchStep::Next(b) => b,
        _ => panic!("the batch did not go on"),
    };
    assert_eq!(batch.next_index(), 1);
    match batch.record(Err(JouleProfilerError::CounterOverflow)) {
        BatchStep::Failed(JouleProfilerError::CounterOverflow) => {}
        _ => panic!("the batch did not fail"),
    }
    // nothing is left of the batch: no third iteration can be asked for
}

#[test]
fn batch_hands_out_results_only_when_complete() {
    let config = pattern_config("x", vec!["prog".to_string()]);
    let domains = vec![create_mock_domain("package-0", 0)];
    let mut batch = measure_phases_iterations(&config, &domains, 3).unwrap();
    for i in 0..2 {
        assert_eq!(batch.next_index(), i);
        batch = match batch.record(Ok(PhasesResult { phases: vec![] })) {
            BatchStep::Next(b) => b,
            _ => panic!("the batch did not go on"),
        };
    }
    match batch.record(Ok(PhasesResult { phases: vec![] })) {
        BatchStep::Finished(all) => {
            let indices: Vec<usize> = all.iter().map(|(i, _)| *i).collect();
            assert_eq!(indices, vec![0, 1, 2]);
        }
        _ => panic!("the batch did not finish"),
    }
}

#[test]
fn batch_of_one_finishes_with_its_only_result() {
    let config = pattern_config("x", vec!["prog".to_string()]);
    let domains = vec![create_mock_domain("package-0", 0)];
    let batch = measure_phases_iterations(&config, &domains, 1).unwrap();
    match batch.record(Ok(PhasesResult { phases: vec![] })) {
        BatchStep::Finished(all) => assert_eq!(all.len(), 1),
        _ => panic!("the batch did not finish"),
    }
}

fn phases_args(pattern: &str) -> PhasesArgs {
    PhasesArgs {
        token_pattern: pattern.to_string(),
        json: false,
        csv: false,
        iterations: None,
        jouleit_file: None,
        sockets: None,
        output_file: None,
        cmd: vec!["prog".to_string()],
    }
}

#[test]
fn from_phases_checks_the_pattern_last() {
    let domains = vec![create_mock_domain("package-0", 0)];
    let config = Config::from_phases(phases_args("__[A-Z0-9_]+__"), &domains).unwrap();
    assert_eq!(config.token_pattern.as_deref(), Some("__[A-Z0-9_]+__"));
    assert_eq!(config.sockets, vec![0]);

    assert!(matches!(
        Config::from_phases(phases_args("(("), &domains),
        Err(JouleProfilerError::InvalidPattern(_))
    ));

    let mut args = phases_args("((");
    args.cmd = vec![];
    assert!(matches!(
        Config::from_phases(args, &domains),
        Err(JouleProfilerError::NoCommand)
    ));

    let mut args = phases_args("((");
    args.iterations = Some(0);
    assert!(matches!(
        Config::from_phases(args, &domains),
        Err(JouleProfilerError::InvalidIterations(0))
    ));

    let mut args = phases_args("((");
    args.json = true;
    args.csv = true;
    assert!(matches!(
        Config::from_phases(args, &domains),
        Err(JouleProfilerError::ConflictingOutputFormats)
    ));
}

#[test]
fn run_phases_settles_the_mode() {
    let domains = vec![create_mock_domain("package-0", 0)];
    let plan = run_phases(phases_args("_.*"), &domains).unwrap();
    assert_eq!(plan.mode, RunMode::Single);
    let mut args = phases_args("_.*");
    args.iterations = Some(2);
    let plan = run_phases(args, &domains).unwrap();
    assert_eq!(plan.mode, RunMode::Iterations(2));
}
