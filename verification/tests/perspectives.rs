use palette_orchestrator::perspectives::{
    PerspectiveEntry, PerspectivePath, PerspectivesConfig, PerspectivesConfigError,
    PerspectivesValidationError, ResolvedPaths, ValidatedPerspective, ValidatedPerspectives,
};

const BASE: &str = "/tmp/pt/docs";

/// What the file system says of a base directory `docs` holding `axioms`
/// and `principles`.
fn docs_fs() -> ResolvedPaths {
    ResolvedPaths {
        dirs: vec![(BASE.to_string(), Some(BASE.to_string()))],
        paths: vec![
            (format!("{BASE}/axioms"), Ok(format!("{BASE}/axioms"))),
            (format!("{BASE}/principles"), Ok(format!("{BASE}/principles"))),
            (format!("{BASE}/../../../etc"), Ok("/etc".to_string())),
        ],
    }
}

fn entry(name: &str, paths: &[&str]) -> PerspectiveEntry {
    PerspectiveEntry {
        name: name.to_string(),
        paths: paths.iter().map(|p| p.to_string()).collect(),
    }
}

fn config(dir_name: &str, perspectives: Vec<PerspectiveEntry>) -> PerspectivesConfig {
    PerspectivesConfig {
        perspectives_dirs: vec![(dir_name.to_string(), BASE.to_string())],
        perspectives,
    }
}

fn errors_of(r: Result<ValidatedPerspectives, PerspectivesConfigError>) -> Vec<PerspectivesValidationError> {
    match r {
        Ok(_) => panic!("expected validation errors"),
        Err(e) => e.errors,
    }
}

#[test]
fn validates_valid_config() {
    let config = config(
        "team-docs",
        vec![entry("rust-review", &["team-docs:axioms", "team-docs:principles"])],
    );
    let validated = config.validate(&docs_fs()).unwrap();
    assert_eq!(validated.names().len(), 1);
    assert!(validated.names().iter().any(|n| n == "rust-review"));
}

#[test]
fn rejects_nonexistent_dir() {
    let config = PerspectivesConfig {
        perspectives_dirs: vec![("team-docs".to_string(), "/nonexistent/path".to_string())],
        perspectives: vec![],
    };
    let err = config.validate(&ResolvedPaths::default()).unwrap_err();
    assert!(err
        .errors
        .iter()
        .any(|e| matches!(e, PerspectivesValidationError::DirNotFound { .. })));
}

#[test]
fn rejects_duplicate_perspective_names() {
    let config = config(
        "a",
        vec![entry("dup", &["a:axioms"]), entry("dup", &["a:principles"])],
    );
    let errors = errors_of(config.validate(&docs_fs()));
    assert!(errors
        .iter()
        .any(|e| matches!(e, PerspectivesValidationError::DuplicateName { name } if name == "dup")));
}

#[test]
fn rejects_empty_paths() {
    let config = config("a", vec![entry("empty", &[])]);
    let errors = errors_of(config.validate(&docs_fs()));
    assert!(errors
        .iter()
        .any(|e| matches!(e, PerspectivesValidationError::EmptyPaths { .. })));
}

#[test]
fn rejects_empty_path_entry() {
    let config = config("a", vec![entry("test", &["", "a:"])]);
    let errors = errors_of(config.validate(&docs_fs()));
    assert!(errors
        .iter()
        .all(|e| matches!(e, PerspectivesValidationError::EmptyPathEntry { .. })));
    assert_eq!(errors.len(), 2);
}

#[test]
fn rejects_duplicate_path_entries() {
    let config = config("a", vec![entry("test", &["a:axioms", "a:axioms"])]);
    let errors = errors_of(config.validate(&docs_fs()));
    assert!(errors
        .iter()
        .any(|e| matches!(e, PerspectivesValidationError::DuplicatePathEntry { .. })));
}

#[test]
fn rejects_unknown_dir_name() {
    let config = config("a", vec![entry("test", &["unknown:axioms"])]);
    let errors = errors_of(config.validate(&docs_fs()));
    assert!(errors.iter().any(
        |e| matches!(e, PerspectivesValidationError::UnknownDir { dir_name, .. } if dir_name == "unknown")
    ));
}

#[test]
fn rejects_path_traversal() {
    let config = config("a", vec![entry("test", &["a:../../../etc"])]);
    let errors = errors_of(config.validate(&docs_fs()));
    assert!(errors
        .iter()
        .any(|e| matches!(e, PerspectivesValidationError::PathTraversal { .. })));
}

#[test]
fn empty_config_is_valid() {
    let config = PerspectivesConfig::default();
    let validated = config.validate(&ResolvedPaths::default()).unwrap();
    assert!(validated.names().is_empty());
}

#[test]
fn unresolved_document_is_reported_with_reason() {
    let config = config("a", vec![entry("test", &["a:missing"])]);
    let errors = errors_of(config.validate(&docs_fs()));
    assert_eq!(errors.len(), 1);
    assert_eq!(
        errors[0].message(),
        "perspectives[test]: path traversal in a:missing: No such file or directory (os error 2)"
    );
}

#[test]
fn every_broken_rule_is_reported_in_order() {
    let config = PerspectivesConfig {
        perspectives_dirs: vec![
            ("a".to_string(), BASE.to_string()),
            ("gone".to_string(), "/nonexistent".to_string()),
        ],
        perspectives: vec![
            entry("p", &["a:axioms"]),
            entry("p", &["x:axioms", "a:axioms", "a:axioms"]),
        ],
    };
    let err = config.validate(&docs_fs()).unwrap_err();
    let lines: Vec<String> = err.errors.iter().map(|e| e.message()).collect();
    assert_eq!(
        lines,
        vec![
            "perspectives_dirs[gone]: directory not found: /nonexistent".to_string(),
            "perspectives: duplicate name: p".to_string(),
            "perspectives[p]: unknown dir name: x".to_string(),
            "perspectives[p]: duplicate path entry: a:axioms".to_string(),
        ]
    );
    assert_eq!(
        err.message(),
        "perspectives config validation failed:\n  perspectives_dirs[gone]: directory not found: /nonexistent\n  perspectives: duplicate name: p\n  perspectives[p]: unknown dir name: x\n  perspectives[p]: duplicate path entry: a:axioms\n"
    );
}

#[test]
fn empty_entry_message_quotes_the_entry() {
    let e = PerspectivesValidationError::EmptyPathEntry {
        perspective: "t".to_string(),
        entry: "a:".to_string(),
    };
    assert_eq!(e.message(), "perspectives[t]: empty path entry: \"a:\"");
}

#[test]
fn validated_paths_keep_their_order_and_find_works() {
    let config = config(
        "team-docs",
        vec![
            entry("rust-review", &["team-docs:principles", "team-docs:axioms"]),
            entry("docs-review", &["team-docs:axioms"]),
        ],
    );
    let v = config.validate(&docs_fs()).unwrap();
    assert_eq!(v.dirs, vec![("team-docs".to_string(), BASE.to_string())]);
    let p = v.find("rust-review").unwrap();
    let strs: Vec<String> = p.paths.iter().map(|pp| pp.as_config_str()).collect();
    assert_eq!(strs, vec!["team-docs:principles", "team-docs:axioms"]);
    assert!(v.find("nope").is_none());
    assert_eq!(v.names(), vec!["rust-review".to_string(), "docs-review".to_string()]);
}

#[test]
fn as_config_str_joins_dir_and_path() {
    let p = PerspectivePath {
        dir_name: "team-docs".to_string(),
        relative_path: "compass/axioms".to_string(),
    };
    assert_eq!(p.as_config_str(), "team-docs:compass/axioms");
}

#[test]
fn names_lists_each_name_once() {
    let v = ValidatedPerspectives {
        dirs: vec![],
        perspectives: vec![
            ValidatedPerspective { name: "a".to_string(), paths: vec![] },
            ValidatedPerspective { name: "b".to_string(), paths: vec![] },
            ValidatedPerspective { name: "a".to_string(), paths: vec![] },
        ],
    };
    assert_eq!(v.names(), vec!["a".to_string(), "b".to_string()]);
}
