//! The manifest snapshot: field extraction, the primary target name, the
//! dependency pairs and the module documentation text.

use cratesfyi::crte::CrateOpenError;
use cratesfyi::manifest::{info_from_manifest, read_rust_doc};
use cratesfyi::text::{str_contains, str_trim};

fn s(x: &str) -> String {
    x.to_string()
}

const MANIFEST: &str = r#"
[package]
name = "my-crate"
version = "0.2.1"
license = "MIT"
repository = "https://example.com/repo"
description = "A demo"
readme = "README.md"
authors = ["Jane Doe <jane@example.com>"]
keywords = ["demo", "example"]

[dependencies]
libc = "0.2"
helper = { path = "helper" }
"#;

#[test]
fn test_info_from_manifest_fields() {
    let src_lines = vec![s("//! Demo docs."), s(""), s("fn x() {}")];
    let info = info_from_manifest(MANIFEST, &src_lines, Some(s("# readme text"))).unwrap();
    assert_eq!(info.name, "my-crate");
    assert_eq!(info.version, "0.2.1");
    assert_eq!(info.target_name, "my_crate");
    assert_eq!(info.metadata.license.as_deref(), Some("MIT"));
    assert_eq!(info.metadata.repository.as_deref(), Some("https://example.com/repo"));
    assert_eq!(info.metadata.homepage, None);
    assert_eq!(info.metadata.description.as_deref(), Some("A demo"));
    assert_eq!(info.metadata.readme.as_deref(), Some("README.md"));
    assert_eq!(info.metadata.authors, vec![s("Jane Doe <jane@example.com>")]);
    assert_eq!(info.metadata.keywords, vec![s("demo"), s("example")]);
    assert_eq!(info.rustdoc.as_deref(), Some("Demo docs.\n"));
    assert_eq!(info.readme.as_deref(), Some("# readme text"));
    let mut deps = info.dependencies.clone();
    deps.sort();
    assert_eq!(deps, vec![(s("helper"), s("*")), (s("libc"), s("0.2"))]);
}

#[test]
fn test_info_from_manifest_lib_name_wins() {
    let manifest = "[package]\nname = \"my-crate\"\nversion = \"0.1.0\"\n\n[lib]\nname = \"special\"\n";
    let info = info_from_manifest(manifest, &Vec::new(), None).unwrap();
    assert_eq!(info.target_name, "special");
}

#[test]
fn test_info_from_manifest_missing_version() {
    let manifest = "[package]\nname = \"my-crate\"\n";
    let r = info_from_manifest(manifest, &Vec::new(), None);
    assert!(matches!(r, Err(CrateOpenError::ManifestError)));
}

#[test]
fn test_info_from_manifest_invalid_toml() {
    let r = info_from_manifest("not [ toml", &Vec::new(), None);
    assert!(matches!(r, Err(CrateOpenError::ManifestError)));
}

#[test]
fn test_read_rust_doc_extracts_lines() {
    let lines = vec![
        s("//! First line."),
        s("//!"),
        s("//! Second line."),
        s("use x;"),
        s("//! not counted? yes counted"),
    ];
    let doc = read_rust_doc(&lines).unwrap();
    assert_eq!(doc, "First line.\n\nSecond line.\nnot counted? yes counted\n");
}

#[test]
fn test_read_rust_doc_none_without_markers() {
    let lines = vec![s("fn main() {}")];
    assert!(read_rust_doc(&lines).is_none());
    let empty: Vec<String> = Vec::new();
    assert!(read_rust_doc(&empty).is_none());
}

#[test]
fn test_str_trim_and_contains() {
    assert_eq!(str_trim("  Jane Doe \t"), "Jane Doe");
    assert_eq!(str_trim(""), "");
    assert!(str_contains("a/.git/b", ".git"));
    assert!(!str_contains("a/b", ".git"));
}

#[test]
fn test_str_trim_matches_std() {
    for s in ["  a b  ", "\t\nx", "", "\u{a0}y\u{2003}", "no-trim"] {
        assert_eq!(str_trim(s), s.trim());
    }
}
