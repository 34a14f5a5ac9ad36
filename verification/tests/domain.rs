use joule_profiler::errors::{IoFailure, IoReport, JouleProfilerError};
use joule_profiler::rapl::domain::{
    check_os, check_rapl, discover_domains, discover_sockets, domain_from_entry,
    extract_socket_number, is_rapl_entry, parse_sockets, rapl_base_path, select_domains,
    RaplDomain,
};

fn domain(path: &str, name: &str, socket: u32) -> RaplDomain {
    RaplDomain {
        path: path.to_string(),
        name: name.to_string(),
        socket,
        max_energy_uj: None,
    }
}

#[test]
fn test_check_os_on_linux() {
    let result = check_os("linux");
    assert!(result.is_ok());

    let result = check_os("macos");
    assert!(result.is_err());

    if let Err(err) = result {
        assert!(matches!(err, JouleProfilerError::UnsupportedOS(_)));
    }
}

#[test]
fn test_discover_sockets_empty() {
    let domains = vec![];
    let sockets = discover_sockets(&domains);
    assert!(sockets.is_empty());
}

#[test]
fn test_discover_sockets_single() {
    let domains = vec![RaplDomain {
        path: "/test/energy_uj".to_string(),
        name: "package-0".to_string(),
        socket: 0,
        max_energy_uj: None,
    }];

    let sockets = discover_sockets(&domains);
    assert_eq!(sockets, vec![0]);
}

#[test]
fn test_discover_sockets_multiple() {
    let domains = vec![
        RaplDomain {
            path: "/test/0/energy_uj".to_string(),
            name: "package-0".to_string(),
            socket: 0,
            max_energy_uj: None,
        },
        RaplDomain {
            path: "/test/1/energy_uj".to_string(),
            name: "package-1".to_string(),
            socket: 1,
            max_energy_uj: None,
        },
        RaplDomain {
            path: "/test/0/core/energy_uj".to_string(),
            name: "core".to_string(),
            socket: 0,
            max_energy_uj: None,
        },
    ];

    let sockets = discover_sockets(&domains);
    assert_eq!(sockets, vec![0, 1]);
}

#[test]
fn test_parse_sockets_empty_returns_all() {
    let domains = vec![
        domain("/test/0/energy_uj", "package-0", 0),
        domain("/test/1/energy_uj", "package-1", 1),
    ];

    let result = parse_sockets("", &domains).unwrap();
    assert_eq!(result, vec![0, 1]);
}

#[test]
fn test_parse_sockets_single() {
    let domains = vec![
        domain("/test/0/energy_uj", "package-0", 0),
        domain("/test/1/energy_uj", "package-1", 1),
    ];

    let result = parse_sockets("0", &domains).unwrap();
    assert_eq!(result, vec![0]);
}

#[test]
fn test_parse_sockets_multiple() {
    let domains = vec![
        domain("/test/0/energy_uj", "package-0", 0),
        domain("/test/1/energy_uj", "package-1", 1),
        domain("/test/2/energy_uj", "package-2", 2),
    ];

    let result = parse_sockets("0,2", &domains).unwrap();
    assert_eq!(result, vec![0, 2]);
}

#[test]
fn test_parse_sockets_with_spaces() {
    let domains = vec![
        domain("/test/0/energy_uj", "package-0", 0),
        domain("/test/1/energy_uj", "package-1", 1),
    ];

    let result = parse_sockets(" 0 , 1 ", &domains).unwrap();
    assert_eq!(result, vec![0, 1]);
}

#[test]
fn test_parse_sockets_invalid_number() {
    let domains = vec![domain("/test/0/energy_uj", "package-0", 0)];

    let result = parse_sockets("abc", &domains);
    assert!(result.is_err());

    if let Err(err) = result {
        assert!(matches!(err, JouleProfilerError::InvalidSocketSpec(_)));
    }
}

#[test]
fn test_parse_sockets_not_found() {
    let domains = vec![domain("/test/0/energy_uj", "package-0", 0)];

    let result = parse_sockets("99", &domains);
    assert!(result.is_err());

    if let Err(err) = result {
        assert!(matches!(err, JouleProfilerError::SocketNotFound(99)));
    }
}

#[test]
fn test_parse_sockets_deduplicated() {
    let domains = vec![
        domain("/test/0/energy_uj", "package-0", 0),
        domain("/test/1/energy_uj", "package-1", 1),
    ];

    let result = parse_sockets("0,1,0,1", &domains).unwrap();
    assert_eq!(result, vec![0, 1]);
}

#[test]
fn parse_sockets_unknown_socket_nine() {
    let domains = vec![
        domain("/test/0/energy_uj", "package-0", 0),
        domain("/test/1/energy_uj", "package-1", 1),
    ];
    let result = parse_sockets("9", &domains);
    assert!(matches!(result, Err(JouleProfilerError::SocketNotFound(9))));
}

#[test]
fn parse_sockets_sorts_what_it_is_given() {
    let domains = vec![
        domain("/a", "package-0", 0),
        domain("/b", "package-1", 1),
        domain("/c", "package-5", 5),
    ];
    assert_eq!(parse_sockets("5,0", &domains).unwrap(), vec![0, 5]);
    assert_eq!(parse_sockets("1,5,1", &domains).unwrap(), vec![1, 5]);
}

#[test]
fn parse_sockets_passes_over_empty_tokens() {
    let domains = vec![domain("/a", "package-0", 0), domain("/b", "package-1", 1)];
    assert_eq!(parse_sockets(",1,,", &domains).unwrap(), vec![1]);
    assert_eq!(parse_sockets(" , ,", &domains).unwrap(), vec![0, 1]);
}

#[test]
fn parse_sockets_reports_the_token_without_spaces() {
    let domains = vec![domain("/a", "package-0", 0)];
    match parse_sockets("0, x1 ,0", &domains) {
        Err(JouleProfilerError::InvalidSocketSpec(t)) => assert_eq!(t, "x1"),
        other => panic!("unexpected: {:?}", other),
    }
}

#[test]
fn parse_sockets_first_fault_decides() {
    let domains = vec![domain("/a", "package-0", 0)];
    assert!(matches!(
        parse_sockets("3,abc", &domains),
        Err(JouleProfilerError::SocketNotFound(3))
    ));
    assert!(matches!(
        parse_sockets("abc,3", &domains),
        Err(JouleProfilerError::InvalidSocketSpec(_))
    ));
}

#[test]
fn parse_sockets_number_forms() {
    let domains = vec![domain("/a", "package-0", 0), domain("/b", "package-7", 7)];
    // a leading plus sign and leading zeros are read as std reads them
    assert_eq!(parse_sockets("+7", &domains).unwrap(), vec![7]);
    assert_eq!(parse_sockets("007", &domains).unwrap(), vec![7]);
    assert!(matches!(
        parse_sockets("-7", &domains),
        Err(JouleProfilerError::InvalidSocketSpec(_))
    ));
    assert!(matches!(
        parse_sockets("+", &domains),
        Err(JouleProfilerError::InvalidSocketSpec(_))
    ));
    // one more than the largest 32-bit number
    assert!(matches!(
        parse_sockets("4294967296", &domains),
        Err(JouleProfilerError::InvalidSocketSpec(_))
    ));
    assert!(matches!(
        parse_sockets("4294967295", &domains),
        Err(JouleProfilerError::SocketNotFound(4294967295))
    ));
    assert_eq!("+7".parse::<u32>().ok(), Some(7));
    assert_eq!("007".parse::<u32>().ok(), Some(7));
    assert!("-7".parse::<u32>().is_err());
    assert!("+".parse::<u32>().is_err());
}

#[test]
fn parse_sockets_trims_unicode_white_space() {
    let domains = vec![domain("/a", "package-0", 0), domain("/b", "package-1", 1)];
    assert_eq!(
        parse_sockets("\u{2003}1\u{a0}\t", &domains).unwrap(),
        vec![1]
    );
    assert_eq!("\u{2003}1\u{a0}\t".trim(), "1");
}

#[test]
fn discover_sockets_is_sorted_and_unique() {
    let domains = vec![
        domain("/a", "a", 3),
        domain("/b", "b", 1),
        domain("/c", "c", 3),
        domain("/d", "d", 0),
        domain("/e", "e", 1),
    ];
    assert_eq!(discover_sockets(&domains), vec![0, 1, 3]);
}

#[test]
fn select_domains_keeps_order() {
    let domains = vec![
        domain("/a", "a", 1),
        domain("/b", "b", 0),
        domain("/c", "c", 1),
        domain("/d", "d", 2),
    ];
    let chosen = select_domains(&domains, &vec![1, 2]);
    let paths: Vec<&str> = chosen.iter().map(|d| d.path.as_str()).collect();
    assert_eq!(paths, vec!["/a", "/c", "/d"]);
    assert!(select_domains(&domains, &vec![9]).is_empty());
}

#[test]
fn extract_socket_number_reads_the_first_rapl_component() {
    assert_eq!(
        extract_socket_number("/sys/devices/virtual/powercap/intel-rapl/intel-rapl:1"),
        1
    );
    assert_eq!(
        extract_socket_number("/sys/devices/virtual/powercap/intel-rapl/intel-rapl:1/intel-rapl:1:0"),
        1
    );
    assert_eq!(extract_socket_number("/x/intel-rapl:12:3"), 12);
    assert_eq!(extract_socket_number("/x/intel-rapl:oops/intel-rapl:4"), 4);
    assert_eq!(extract_socket_number("/x/intel-rapl"), 0);
    assert_eq!(extract_socket_number(""), 0);
    assert_eq!(extract_socket_number("/x/intel-rapl:"), 0);
}

#[test]
fn is_rapl_entry_needs_the_prefix() {
    assert!(is_rapl_entry("intel-rapl:0"));
    assert!(is_rapl_entry("intel-rapl:"));
    assert!(!is_rapl_entry("intel-rapl"));
    assert!(!is_rapl_entry("xintel-rapl:0"));
    assert!(!is_rapl_entry(""));
}

#[test]
fn domain_from_entry_reads_the_files() {
    let d = domain_from_entry(
        "/r/intel-rapl:2/energy_uj".to_string(),
        "/r/intel-rapl:2",
        Some("package-2\n"),
        Some(" 262143328850\n"),
    );
    assert_eq!(d.path, "/r/intel-rapl:2/energy_uj");
    assert_eq!(d.name, "package-2");
    assert_eq!(d.socket, 2);
    assert_eq!(d.max_energy_uj, Some(262143328850));

    let d = domain_from_entry("/r/x/energy_uj".to_string(), "/r/x", None, Some("many"));
    assert_eq!(d.name, "unknown");
    assert_eq!(d.socket, 0);
    assert_eq!(d.max_energy_uj, None);

    let d = domain_from_entry("/r/x/energy_uj".to_string(), "/r/x", Some("  "), None);
    assert_eq!(d.name, "");
    assert_eq!(d.max_energy_uj, None);
}

#[test]
fn discover_domains_needs_one_counter() {
    assert!(matches!(
        discover_domains(vec![]),
        Err(JouleProfilerError::NoDomains)
    ));
    let found = discover_domains(vec![domain("/a", "a", 0)]).unwrap();
    assert_eq!(found.len(), 1);
    assert_eq!(found[0].path, "/a");
}

#[test]
fn check_rapl_tells_the_reasons_apart() {
    assert!(matches!(
        check_rapl("/nowhere", false, false, None),
        Err(JouleProfilerError::RaplNotAvailable(p)) if p == "/nowhere"
    ));
    assert!(matches!(
        check_rapl("/file", true, false, None),
        Err(JouleProfilerError::InvalidRaplPath(p)) if p == "/file"
    ));
    assert!(check_rapl("/dir", true, true, None).is_ok());
    let denied = IoReport {
        kind: IoFailure::PermissionDenied,
        text: "denied".to_string(),
    };
    assert!(matches!(
        check_rapl("/dir", true, true, Some(denied)),
        Err(JouleProfilerError::InsufficientPermissions)
    ));
    let other = IoReport {
        kind: IoFailure::Other,
        text: "broken".to_string(),
    };
    assert!(matches!(
        check_rapl("/dir", true, true, Some(other)),
        Err(JouleProfilerError::RaplReadError(t)) if t == "broken"
    ));
    let gone = IoReport {
        kind: IoFailure::NotFound,
        text: "gone".to_string(),
    };
    assert!(matches!(
        check_rapl("/dir", true, true, Some(gone)),
        Err(JouleProfilerError::RaplNotAvailable(t)) if t == "gone"
    ));
}

#[test]
fn test_rapl_base_path_default() {
    let path = rapl_base_path(None, None);
    assert_eq!(path, "/sys/devices/virtual/powercap/intel-rapl");
}

#[test]
fn test_rapl_base_path_cli_override() {
    let custom_path = "/custom/rapl/path".to_string();
    let path = rapl_base_path(Some(&custom_path), None);
    assert_eq!(path, "/custom/rapl/path");
}

#[test]
fn test_rapl_base_path_env_variable() {
    let env_path = "/env/rapl/path";
    let path = rapl_base_path(None, Some(env_path.to_string()));
    assert_eq!(path, env_path);
}

#[test]
fn test_rapl_base_path_cli_takes_precedence_over_env() {
    let env_path = "/env/rapl/path";
    let cli_path = "/cli/rapl/path".to_string();

    let path = rapl_base_path(Some(&cli_path), Some(env_path.to_string()));
    assert_eq!(path, "/cli/rapl/path");
}

#[test]
fn test_rapl_base_path_env_takes_precedence_over_default() {
    let env_path = "/env/rapl/path";
    let path = rapl_base_path(None, Some(env_path.to_string()));
    assert_eq!(path, env_path);
    assert_ne!(path, "/sys/devices/virtual/powercap/intel-rapl");
}

#[test]
fn test_rapl_base_path_empty_string_override() {
    let empty_path = "".to_string();
    let path = rapl_base_path(Some(&empty_path), None);
    assert_eq!(path, "");
}

#[test]
fn test_rapl_base_path_with_trailing_slash() {
    let path_with_slash = "/custom/rapl/path/".to_string();
    let path = rapl_base_path(Some(&path_with_slash), None);
    assert_eq!(path, "/custom/rapl/path/");
}

#[test]
fn test_rapl_base_path_relative_path() {
    let relative = "./relative/rapl".to_string();
    let path = rapl_base_path(Some(&relative), None);
    assert_eq!(path, "./relative/rapl");
}
