use wattbuild::{join_path, Dependency, ErrorKind, Source};

#[test]
fn git_without_rev() {
    let s = Source::Git { git: "G".to_string(), rev: None };
    assert_eq!(s.to_key_values(&None).unwrap(), "git = \"G\"");
}

#[test]
fn git_with_rev() {
    let s = Source::Git { git: "G".to_string(), rev: Some("R".to_string()) };
    assert_eq!(s.to_key_values(&None).unwrap(), "git = \"G\", rev = \"R\"");
}

#[test]
fn registry_without_name() {
    let s = Source::Registry { version: "1.0".to_string(), registry: None };
    assert_eq!(s.to_key_values(&None).unwrap(), "version = \"1.0\"");
}

#[test]
fn registry_with_name() {
    let s = Source::Registry { version: "1.0".to_string(), registry: Some("alt".to_string()) };
    assert_eq!(s.to_key_values(&None).unwrap(), "version = \"1.0\", registry = \"alt\"");
}

#[test]
fn existing_path_yields_path_fragment() {
    // The empty path resolves to the base directory itself, which exists.
    let s = Source::Path { path: String::new(), or: None };
    let base = Some("/".to_string());
    assert_eq!(s.to_key_values(&base).unwrap(), "path = \"/\"");
}

#[test]
fn missing_path_falls_back_to_git() {
    let s = Source::Path {
        path: "missing-entry-never-created".to_string(),
        or: Some(Box::new(Source::Git { git: "G".to_string(), rev: None })),
    };
    let base = Some("/".to_string());
    assert_eq!(s.to_key_values(&base).unwrap(), "git = \"G\"");
}

#[test]
fn answered_existing_path_wins_over_fallback() {
    let s = Source::Path {
        path: "exists-dir".to_string(),
        or: Some(Box::new(Source::Git { git: "G".to_string(), rev: None })),
    };
    let base = Some("/base".to_string());
    let r = s.resolve_with(&base, &vec![true]);
    assert_eq!(r.unwrap(), "path = \"/base/exists-dir\"");
}

#[test]
fn answered_missing_path_defers_to_fallback() {
    let s = Source::Path {
        path: "exists-dir".to_string(),
        or: Some(Box::new(Source::Git { git: "G".to_string(), rev: None })),
    };
    let base = Some("/base".to_string());
    let r = s.resolve_with(&base, &vec![false]);
    assert_eq!(r.unwrap(), "git = \"G\"");
}

#[test]
fn chain_falls_through_to_terminal_source() {
    let s = Source::Path {
        path: "first".to_string(),
        or: Some(Box::new(Source::Path {
            path: "second".to_string(),
            or: Some(Box::new(Source::Registry { version: "2".to_string(), registry: None })),
        })),
    };
    let base = Some("/b".to_string());
    assert_eq!(s.resolve_with(&base, &vec![false, false]).unwrap(), "version = \"2\"");
    assert_eq!(s.resolve_with(&base, &vec![false, true]).unwrap(), "path = \"/b/second\"");
    assert_eq!(s.resolve_with(&base, &vec![true, false]).unwrap(), "path = \"/b/first\"");
}

#[test]
fn missing_path_without_fallback_is_unresolved() {
    let s = Source::Path { path: "missing-entry-never-created".to_string(), or: None };
    let base = Some("/".to_string());
    let e = s.to_key_values(&base).unwrap_err();
    assert_eq!(e.kind, ErrorKind::UnresolvedPath);
    assert_eq!(
        e.messages,
        vec![
            "`/missing-entry-never-created` does not exist and missing `Source::Path::or`"
                .to_string()
        ]
    );
}

#[test]
fn path_without_base_directory_is_missing_environment() {
    let s = Source::Path { path: "anything".to_string(), or: None };
    let e = s.to_key_values(&None).unwrap_err();
    assert_eq!(e.kind, ErrorKind::MissingEnvironment);
    assert_eq!(e.messages, vec!["could not read `$CARGO_MANIFEST_DIR`".to_string()]);
}

#[test]
fn dependency_specification_is_exact() {
    let d = Dependency {
        package: "demo".to_string(),
        source: Source::Git { git: "https://x".to_string(), rev: Some("abc".to_string()) },
    };
    assert_eq!(
        d.to_specification(&None).unwrap(),
        "{ package = \"demo\", git = \"https://x\", rev = \"abc\" }"
    );
}

#[test]
fn dependency_specification_escapes_strings() {
    let d = Dependency {
        package: "na\"me".to_string(),
        source: Source::Registry { version: "1.0\n".to_string(), registry: None },
    };
    assert_eq!(
        d.to_specification(&None).unwrap(),
        "{ package = \"na\\\"me\", version = \"1.0\\n\" }"
    );
}

#[test]
fn join_keeps_absolute_paths() {
    assert_eq!(join_path("/a", "/b"), "/b");
}

#[test]
fn join_inserts_one_separator() {
    assert_eq!(join_path("/a", "b"), "/a/b");
    assert_eq!(join_path("/a/", "b"), "/a/b");
    assert_eq!(join_path("", "b"), "b");
}
