//! The metadata ingestor against the relational store model: upserts,
//! idempotency, slug sharing, author parsing, build classification and
//! the registry version match.

use cratesfyi::crte::{Crate, CrateOpenError};
use cratesfyi::db::{Database, MAX_ROW_ID};
use cratesfyi::ingest::{
    compute_build_status, parse_author, registry_release_info, IngestInput, RegistryVersion,
};
use cratesfyi::manifest::{CrateInfo, ManifestMetadata};

fn s(x: &str) -> String {
    x.to_string()
}

fn sample_info(keywords: Vec<String>) -> CrateInfo {
    CrateInfo {
        name: s("rand"),
        target_name: s("rand"),
        version: s("0.3.14"),
        dependencies: vec![(s("libc"), s("^0.2"))],
        rustdoc: Some(s("Random number generators.\n")),
        readme: Some(s("# rand\n")),
        metadata: ManifestMetadata {
            license: Some(s("MIT")),
            repository: Some(s("https://github.com/rust-random/rand")),
            homepage: None,
            description: Some(s("Random numbers")),
            readme: Some(s("README.md")),
            authors: vec![s("Jane Doe <jane@example.com>"), s("<broken")],
            keywords,
        },
    }
}

fn sample_input(keywords: Vec<String>) -> IngestInput {
    IngestInput {
        crate_info: sample_info(keywords),
        have_examples: true,
        versions_body: s(
            r#"{"versions":[{"num":"0.3.13","created_at":"2016-01-01T00:00:00","yanked":false,"downloads":5},{"num":"0.3.14","created_at":"2016-02-01T10:00:00","yanked":false,"downloads":100}]}"#,
        ),
        owners_body: s(
            r#"{"users":[{"login":"octocat","name":"Octo Cat","email":"octo@example.com","avatar":"https://example.com/a.png"}]}"#,
        ),
        build_log_exists: true,
        doc_dir_exists: true,
        target_doc_exists: true,
    }
}

fn sample_crate() -> Crate {
    Crate::new(s("rand"), vec![s("0.3.14"), s("0.3.13")])
}

#[test]
fn test_add_crate_into_database() {
    let crte = sample_crate();
    let mut db = Database::new();
    let res = crte.add_crate_into_database(0, &mut db, &sample_input(vec![s("random")]));
    assert!(res.is_ok());
    assert_eq!(db.crates.len(), 1);
    assert_eq!(db.crates[0].name, "rand");
    assert_eq!(db.crates[0].versions, vec![s("0.3.14")]);
    assert_eq!(db.releases.len(), 1);
    let rel = &db.releases[0];
    assert_eq!(rel.crate_id, db.crates[0].id);
    assert_eq!(rel.version, "0.3.14");
    assert_eq!(rel.release_time, Some(1454320800));
    assert_eq!(rel.yanked, Some(false));
    assert_eq!(rel.downloads, Some(100));
    assert_eq!(rel.build_status, 1);
    assert_eq!(rel.rustdoc_status, 1);
    assert_eq!(rel.test_status, 0);
    assert_eq!(rel.dependencies, r#"[["libc","^0.2"]]"#);
    assert_eq!(rel.authors, r#"["Jane Doe <jane@example.com>","<broken"]"#);
    assert_eq!(rel.keywords, r#"["random"]"#);
    assert_eq!(rel.license.as_deref(), Some("MIT"));
    assert_eq!(rel.description_long.as_deref(), Some("Random number generators.\n"));
    assert_eq!(rel.have_examples, true);
    // one keyword, one parseable author, one owner, each with one relationship
    assert_eq!(db.keywords.len(), 1);
    assert_eq!(db.keyword_rels.len(), 1);
    assert_eq!(db.authors.len(), 1);
    assert_eq!(db.authors[0].name, "Jane Doe");
    assert_eq!(db.authors[0].email, "jane@example.com");
    assert_eq!(db.authors[0].slug, "jane-doe");
    assert_eq!(db.author_rels.len(), 1);
    assert_eq!(db.owners.len(), 1);
    assert_eq!(db.owners[0].login, "octocat");
    assert_eq!(db.owner_rels.len(), 1);
}

#[test]
fn test_ingest_twice_is_idempotent() {
    // identical external inputs twice: one crate row, one release row,
    // no duplicate relationship rows
    let crte = sample_crate();
    let mut db = Database::new();
    let input = sample_input(vec![s("random"), s("rng")]);
    assert!(crte.add_crate_into_database(0, &mut db, &input).is_ok());
    let crate_id = db.crates[0].id;
    let release_id = db.releases[0].id;
    assert!(crte.add_crate_into_database(0, &mut db, &input).is_ok());
    assert_eq!(db.crates.len(), 1);
    assert_eq!(db.releases.len(), 1);
    // the second run reuses the same rows: same crate id, and the release
    // row was updated in place under its id
    assert_eq!(db.crates[0].id, crate_id);
    assert_eq!(db.releases[0].id, release_id);
    assert_eq!(db.crates[0].versions, vec![s("0.3.14")]);
    assert_eq!(db.keywords.len(), 2);
    assert_eq!(db.keyword_rels.len(), 2);
    assert_eq!(db.authors.len(), 1);
    assert_eq!(db.author_rels.len(), 1);
    assert_eq!(db.owners.len(), 1);
    assert_eq!(db.owner_rels.len(), 1);
    for i in 0..db.keyword_rels.len() {
        for j in 0..i {
            assert_ne!(db.keyword_rels[i], db.keyword_rels[j]);
        }
    }
}

#[test]
fn test_keywords_share_slug_across_ingests() {
    // "Async IO" and "async-io" from two different ingests resolve to
    // the same slug and share one keyword row
    let crte = sample_crate();
    let mut db = Database::new();
    assert!(crte
        .add_crate_into_database(0, &mut db, &sample_input(vec![s("Async IO")]))
        .is_ok());
    assert!(crte
        .add_crate_into_database(0, &mut db, &sample_input(vec![s("async-io")]))
        .is_ok());
    assert_eq!(db.keywords.len(), 1);
    assert_eq!(db.keywords[0].slug, "async-io");
    assert_eq!(db.keywords[0].name, "Async IO");
    assert_eq!(db.keyword_rels.len(), 1);
}

#[test]
fn test_second_version_appends() {
    let crte = sample_crate();
    let mut db = Database::new();
    let mut older = sample_input(vec![s("random")]);
    older.crate_info.version = s("0.3.13");
    assert!(crte.add_crate_into_database(0, &mut db, &sample_input(vec![s("random")])).is_ok());
    assert!(crte.add_crate_into_database(1, &mut db, &older).is_ok());
    assert_eq!(db.crates.len(), 1);
    assert_eq!(db.releases.len(), 2);
    assert_eq!(db.crates[0].versions, vec![s("0.3.14"), s("0.3.13")]);
}

#[test]
fn test_ingest_db_error_when_no_id_room() {
    let crte = sample_crate();
    let mut db = Database::new();
    db.next_id = MAX_ROW_ID;
    let res = crte.add_crate_into_database(0, &mut db, &sample_input(vec![s("random")]));
    assert!(matches!(res, Err(CrateOpenError::DbError)));
    assert_eq!(db.crates.len(), 0);
}

#[test]
fn test_ingest_bad_versions_body() {
    let crte = sample_crate();
    let mut db = Database::new();
    let mut input = sample_input(vec![s("random")]);
    input.versions_body = s("not json");
    let res = crte.add_crate_into_database(0, &mut db, &input);
    assert!(matches!(res, Err(CrateOpenError::NotObject)));
    // the crate row was already upserted before the failure
    assert_eq!(db.crates.len(), 1);
}

#[test]
fn test_ingest_bad_owners_body() {
    let crte = sample_crate();
    let mut db = Database::new();
    let mut input = sample_input(vec![s("random")]);
    input.owners_body = s("{{{");
    let res = crte.add_crate_into_database(0, &mut db, &input);
    assert!(matches!(res, Err(CrateOpenError::ParseError)));
    // the best-effort keyword and author steps still ran
    assert_eq!(db.keywords.len(), 1);
    assert_eq!(db.authors.len(), 1);
}

#[test]
fn test_ingest_no_registry_match_leaves_fields_unset() {
    let crte = Crate::new(s("rand"), vec![s("9.9.9")]);
    let mut db = Database::new();
    let mut input = sample_input(vec![s("random")]);
    input.crate_info.version = s("9.9.9");
    let res = crte.add_crate_into_database(0, &mut db, &input);
    assert!(res.is_ok());
    let rel = &db.releases[0];
    assert_eq!(rel.release_time, None);
    assert_eq!(rel.yanked, None);
    assert_eq!(rel.downloads, None);
}

#[test]
fn test_author_parse_with_email() {
    let r = parse_author("Jane Doe <jane@example.com>").unwrap();
    assert_eq!(r.0, "Jane Doe");
    assert_eq!(r.1, "jane@example.com");
}

#[test]
fn test_author_parse_without_email_not_skipped() {
    let r = parse_author("Jane Doe").unwrap();
    assert_eq!(r.0, "Jane Doe");
    assert_eq!(r.1, "");
}

#[test]
fn test_author_parse_skips_malformed() {
    assert!(parse_author("").is_none());
    assert!(parse_author("<jane@example.com>").is_none());
}

#[test]
fn test_build_status_classification() {
    assert_eq!(compute_build_status(true, true), 1);
    assert_eq!(compute_build_status(true, false), -1);
    assert_eq!(compute_build_status(false, false), 0);
    assert_eq!(compute_build_status(false, true), 0);
}

fn rv(num: &str, created: &str, yanked: bool, downloads: i64) -> RegistryVersion {
    RegistryVersion {
        num: Some(s(num)),
        created_at: Some(s(created)),
        yanked: Some(yanked),
        downloads: Some(downloads),
    }
}

#[test]
fn test_registry_release_info_match() {
    let vlist = vec![
        rv("0.3.13", "2016-01-01T00:00:00", false, 5),
        rv("0.3.14", "2016-02-01T10:00:00", true, 100),
    ];
    let r = registry_release_info(&vlist, "0.3.14").unwrap();
    assert_eq!(r.0, Some(1454320800));
    assert_eq!(r.1, Some(true));
    assert_eq!(r.2, Some(100));
}

#[test]
fn test_registry_release_info_absent() {
    let vlist = vec![rv("0.3.13", "2016-01-01T00:00:00", false, 5)];
    let r = registry_release_info(&vlist, "0.9.9").unwrap();
    assert_eq!(r, (None, None, None));
}

#[test]
fn test_registry_release_info_malformed_element() {
    let vlist = vec![RegistryVersion {
        num: None,
        created_at: None,
        yanked: None,
        downloads: None,
    }];
    let r = registry_release_info(&vlist, "0.3.14");
    assert!(matches!(r, Err(CrateOpenError::NotObject)));
}

#[test]
fn test_author_parse_angle_edge_cases() {
    assert_eq!(
        parse_author("a<b>c>").unwrap(),
        ("a".to_string(), "b>c".to_string())
    );
    assert_eq!(
        parse_author("x<<y>>").unwrap(),
        ("x".to_string(), "y".to_string())
    );
    assert_eq!(parse_author("Jane <").unwrap(), ("Jane".to_string(), String::new()));
}

#[test]
fn test_owner_with_empty_login_leaves_nothing() {
    let crte = sample_crate();
    let mut db = Database::new();
    let mut input = sample_input(vec![s("random")]);
    input.owners_body = s(
        r#"{"users":[{"login":"","name":"Ghost"},{"login":"real","name":"Real One"}]}"#,
    );
    assert!(crte.add_crate_into_database(0, &mut db, &input).is_ok());
    assert_eq!(db.owners.len(), 1);
    assert_eq!(db.owners[0].login, "real");
    assert_eq!(db.owner_rels.len(), 1);
}
