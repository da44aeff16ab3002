use wattbuild::{
    driver_result, exit_code, make_args, plan_invocation, report_lines, resolve_all, Dependency,
    DriverEvent, ErrorChain, ErrorKind, Source,
};

#[test]
fn empty_dependency_set_keeps_toolchain_flag() {
    let deps: Vec<Dependency> = Vec::new();
    let args =
        plan_invocation(&deps, &None, &Some("stable".to_string()), &None).unwrap();
    assert_eq!(args, vec!["--toolchain".to_string(), "stable".to_string()]);
}

#[test]
fn flags_follow_specifications_in_order() {
    let specs = vec!["{ package = \"a\", version = \"1\" }".to_string()];
    let args = make_args(specs, &Some("nightly".to_string()), &Some("de066c4".to_string()));
    assert_eq!(
        args,
        vec![
            "{ package = \"a\", version = \"1\" }".to_string(),
            "--toolchain".to_string(),
            "nightly".to_string(),
            "--proc-macro2-rev".to_string(),
            "de066c4".to_string(),
        ]
    );
}

#[test]
fn no_flags_means_specifications_only() {
    let specs = vec!["x".to_string()];
    let args = make_args(specs, &None, &None);
    assert_eq!(args, vec!["x".to_string()]);
}

#[test]
fn resolve_all_keeps_input_order() {
    let deps = vec![
        Dependency {
            package: "a".to_string(),
            source: Source::Git { git: "G1".to_string(), rev: None },
        },
        Dependency {
            package: "b".to_string(),
            source: Source::Registry { version: "2".to_string(), registry: None },
        },
    ];
    let specs = resolve_all(&deps, &None).unwrap();
    assert_eq!(
        specs,
        vec![
            "{ package = \"a\", git = \"G1\" }".to_string(),
            "{ package = \"b\", version = \"2\" }".to_string(),
        ]
    );
}

#[test]
fn one_failing_dependency_aborts_the_batch() {
    let deps = vec![
        Dependency {
            package: "a".to_string(),
            source: Source::Git { git: "G1".to_string(), rev: None },
        },
        Dependency {
            package: "b".to_string(),
            source: Source::Path { path: "missing-entry-never-created".to_string(), or: None },
        },
    ];
    let e = resolve_all(&deps, &Some("/".to_string())).unwrap_err();
    assert_eq!(e.kind, ErrorKind::UnresolvedPath);
}

#[test]
fn successful_driver_exits_zero() {
    let r = driver_result(
        "python3",
        DriverEvent::Exited { success: true, status: "exit status: 0".to_string() },
    );
    assert!(r.is_ok());
    assert_eq!(exit_code(&r), 0);
}

#[test]
fn failed_driver_exits_one_with_nonempty_chain() {
    let r = driver_result(
        "python3",
        DriverEvent::Exited { success: false, status: "exit status: 1".to_string() },
    );
    let e = r.as_ref().unwrap_err();
    assert_eq!(e.kind, ErrorKind::ProcessExitFailure);
    assert_eq!(e.messages, vec!["`python3` failed: exit status: 1".to_string()]);
    assert!(!e.messages.is_empty());
    assert_eq!(exit_code(&r), 1);
}

#[test]
fn unlaunchable_driver_exits_one_with_cause() {
    let r = driver_result(
        "python3",
        DriverEvent::LaunchFailure { detail: "No such file or directory".to_string() },
    );
    let e = r.as_ref().unwrap_err();
    assert_eq!(e.kind, ErrorKind::ProcessLaunchFailure);
    assert_eq!(
        e.messages,
        vec![
            "could not execute `python3`".to_string(),
            "No such file or directory".to_string(),
        ]
    );
    assert_eq!(exit_code(&r), 1);
}

#[test]
fn report_prefixes_primary_and_causes() {
    let e = ErrorChain {
        kind: ErrorKind::ProcessLaunchFailure,
        messages: vec!["one".to_string(), "two".to_string(), "three".to_string()],
    };
    let lines = report_lines(&e);
    assert_eq!(
        lines,
        vec![
            "Error: one".to_string(),
            "Caused by: two".to_string(),
            "Caused by: three".to_string(),
        ]
    );
}
