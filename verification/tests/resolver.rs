//! Index resolution: version lookup, prefix matching, canonical names,
//! and resolving a package from an index tree snapshot.

use cratesfyi::crte::{Crate, CrateOpenError, IndexEntry, IndexNode, IndexTree};

fn s(x: &str) -> String {
    x.to_string()
}

#[test]
fn test_get_vesion_index() {
    let crte = Crate::new(
        "cratesfyi".to_string(),
        vec!["0.1.0".to_string(), "0.1.1".to_string()],
    );
    assert_eq!(crte.get_version_index("0.1.0"), Some(0));
    assert_eq!(crte.get_version_index("0.1.1"), Some(1));
    assert_eq!(crte.get_version_index("0.1.2"), None);
}

#[test]
fn test_get_version_index_repeat_calls_agree() {
    let crte = Crate::new(s("rand"), vec![s("0.3.14"), s("0.3.13")]);
    let first = crte.get_version_index("0.3.13");
    let second = crte.get_version_index("0.3.13");
    assert_eq!(first, Some(1));
    assert_eq!(first, second);
    assert_eq!(crte.get_version_index("9.9.9"), None);
    assert_eq!(crte.get_version_index("9.9.9"), None);
}

#[test]
fn test_version_starts_with_prefix() {
    let crte = Crate::new(s("rand"), vec![s("0.3.14"), s("0.1.2"), s("0.1.1")]);
    assert_eq!(crte.version_starts_with("0.1"), Some(1));
    assert_eq!(crte.version_starts_with("0.3"), Some(0));
    assert_eq!(crte.version_starts_with("999.099.99"), None);
}

#[test]
fn test_version_starts_with_star_is_latest() {
    let crte = Crate::new(s("rand"), vec![s("0.3.14"), s("0.1.1")]);
    assert_eq!(crte.version_starts_with("*"), Some(0));
}

#[test]
fn test_version_starts_with_lexical_quirk() {
    // the lexical, non-semantic match lets "1.2" pick "1.20.0"
    let crte = Crate::new(s("demo"), vec![s("1.20.0"), s("1.2.0")]);
    assert_eq!(crte.version_starts_with("1.2"), Some(0));
}

#[test]
fn test_canonical_name() {
    let crte = Crate::new(s("rand"), vec![s("0.1.13")]);
    assert_eq!(crte.canonical_name(0), "rand-0.1.13");
    assert_eq!(crte.crate_file_name(0), "rand-0.1.13.crate");
}

#[test]
fn test_download_url() {
    let crte = Crate::new(s("rand"), vec![s("0.3.13")]);
    assert_eq!(
        crte.download_url(0),
        "https://crates-io.s3-us-west-1.amazonaws.com/crates/rand/rand-0.3.13.crate"
    );
}

#[test]
fn test_from_index_lines_newest_first() {
    // index lines are appended oldest-first; position 0 must be the last
    // appended line's version
    let lines = vec![
        s(r#"{"name":"rand","vers":"0.1.0"}"#),
        s(r#"{"name":"rand","vers":"0.1.1"}"#),
        s(r#"{"name":"rand","vers":"0.1.2"}"#),
    ];
    let crte = Crate::from_index_lines(&lines).unwrap();
    assert_eq!(crte.name, "rand");
    assert_eq!(crte.versions, vec![s("0.1.2"), s("0.1.1"), s("0.1.0")]);
    assert_eq!(crte.versions[0], "0.1.2");
}

#[test]
fn test_from_index_lines_empty() {
    let lines: Vec<String> = Vec::new();
    let crte = Crate::from_index_lines(&lines).unwrap();
    assert_eq!(crte.name, "");
    assert!(crte.versions.is_empty());
}

#[test]
fn test_from_index_lines_errors() {
    let bad_json = vec![s("not json at all")];
    assert!(matches!(
        Crate::from_index_lines(&bad_json),
        Err(CrateOpenError::ParseError)
    ));
    let not_object = vec![s("[1, 2]")];
    assert!(matches!(
        Crate::from_index_lines(&not_object),
        Err(CrateOpenError::NotObject)
    ));
    let no_name = vec![s(r#"{"vers":"0.1.0"}"#)];
    assert!(matches!(
        Crate::from_index_lines(&no_name),
        Err(CrateOpenError::NameNotFound)
    ));
    let no_vers = vec![s(r#"{"name":"rand"}"#)];
    assert!(matches!(
        Crate::from_index_lines(&no_vers),
        Err(CrateOpenError::VersNotFound)
    ));
}

#[test]
fn test_from_index_lines_first_bad_line_decides() {
    let lines = vec![s(r#"{"name":"rand","vers":"0.1.0"}"#), s("broken"), s("[1]")];
    assert!(matches!(
        Crate::from_index_lines(&lines),
        Err(CrateOpenError::ParseError)
    ));
}

fn leaf(name: &str, lines: Vec<String>) -> IndexEntry {
    IndexEntry {
        name: s(name),
        node: IndexNode::Leaf(lines),
    }
}

fn dir(name: &str, entries: Vec<IndexEntry>) -> IndexEntry {
    IndexEntry {
        name: s(name),
        node: IndexNode::Dir(IndexTree { entries }),
    }
}

#[test]
fn test_from_cargo_index_path() {
    let tree = IndexTree {
        entries: vec![
            leaf("config.json", vec![s("{}")]),
            dir(
                "ra",
                vec![leaf(
                    "rand",
                    vec![
                        s(r#"{"name":"rand","vers":"0.1.0"}"#),
                        s(r#"{"name":"rand","vers":"0.1.1"}"#),
                    ],
                )],
            ),
        ],
    };
    let crte = Crate::from_cargo_index_path("rand", &tree).unwrap();
    assert_eq!(crte.name, "rand");
    assert_eq!(crte.versions, vec![s("0.1.1"), s("0.1.0")]);
}

#[test]
fn test_from_cargo_index_path_not_found() {
    let tree = IndexTree { entries: Vec::new() };
    assert!(matches!(
        Crate::from_cargo_index_path("rand", &tree),
        Err(CrateOpenError::FileNotFound)
    ));
}

#[test]
fn test_from_cargo_index_path_skips_git_and_config() {
    // a matching file under a version-control subtree, or named like the
    // reserved configuration file, is never considered
    let tree = IndexTree {
        entries: vec![
            dir(
                ".git",
                vec![leaf("rand", vec![s(r#"{"name":"rand","vers":"9.9.9"}"#)])],
            ),
            leaf("config.json", vec![s("{}")]),
            leaf("rand", vec![s(r#"{"name":"rand","vers":"0.1.0"}"#)]),
        ],
    };
    let crte = Crate::from_cargo_index_path("rand", &tree).unwrap();
    assert_eq!(crte.versions, vec![s("0.1.0")]);
    assert!(matches!(
        Crate::from_cargo_index_path("config.json", &tree),
        Err(CrateOpenError::FileNotFound)
    ));
}

#[test]
fn test_from_cargo_index_path_swallows_nested_failure() {
    // a parse failure inside a subdirectory is swallowed and the scan
    // goes on with the next sibling
    let tree = IndexTree {
        entries: vec![
            dir("aa", vec![leaf("rand", vec![s("broken line")])]),
            leaf("rand", vec![s(r#"{"name":"rand","vers":"0.2.0"}"#)]),
        ],
    };
    let crte = Crate::from_cargo_index_path("rand", &tree).unwrap();
    assert_eq!(crte.versions, vec![s("0.2.0")]);
}
