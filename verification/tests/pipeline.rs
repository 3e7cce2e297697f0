//! The documentation build pipeline: the fixed step order, the typed
//! failures, and the on-disk path conventions.

use cratesfyi::builder::{
    build_log_path, crate_doc_path, BuildAction, BuildStep, DocBuilderError,
};
use cratesfyi::crte::Crate;

fn s(x: &str) -> String {
    x.to_string()
}

#[test]
fn test_build_session_happy_path() {
    let crte = Crate::new(s("rand"), vec![s("0.3.13")]);
    let mut session = crte.build_crate_doc(0);
    assert_eq!(session.step, BuildStep::Clean);
    assert!(
        matches!(session.next_action(), Some(BuildAction::RemoveBuildDir(d)) if d == "rand-0.3.13")
    );
    session.advance(true, "");
    assert!(matches!(session.next_action(), Some(BuildAction::DownloadCrate(u))
        if u == "https://crates-io.s3-us-west-1.amazonaws.com/crates/rand/rand-0.3.13.crate"));
    session.advance(true, "fetched");
    assert!(
        matches!(session.next_action(), Some(BuildAction::ExtractCrate(f)) if f == "rand-0.3.13.crate")
    );
    session.advance(true, "extracted");
    assert!(
        matches!(session.next_action(), Some(BuildAction::StageDependencies(d)) if d == "rand-0.3.13")
    );
    session.advance(true, "");
    assert!(
        matches!(session.next_action(), Some(BuildAction::RunDocBuild(d)) if d == "rand-0.3.13")
    );
    session.advance(true, "docs built");
    assert_eq!(session.step, BuildStep::Done);
    assert!(session.succeeded());
    assert!(session.next_action().is_none());
    assert!(session.failure.is_none());
}

#[test]
fn test_build_session_fails_at_invocation() {
    let crte = Crate::new(s("rand"), vec![s("0.3.13")]);
    let mut session = crte.build_crate_doc(0);
    session.advance(true, "");
    session.advance(true, "");
    session.advance(true, "");
    session.advance(true, "");
    session.advance(false, "error: could not document");
    assert_eq!(session.step, BuildStep::Failed);
    assert!(!session.succeeded());
    assert!(
        matches!(&session.failure, Some(DocBuilderError::FailedToBuildCrate(m)) if m == "error: could not document")
    );
}

#[test]
fn test_build_session_fails_at_fetch_keeps_log() {
    let crte = Crate::new(s("rand"), vec![s("0.3.13")]);
    let mut session = crte.build_crate_doc(0);
    session.advance(true, "");
    session.advance(false, "404 not found");
    assert_eq!(session.step, BuildStep::Failed);
    assert!(
        matches!(&session.failure, Some(DocBuilderError::DownloadCrateError(m)) if m == "404 not found")
    );
}

#[test]
fn test_build_log_path() {
    assert_eq!(
        build_log_path("/var/log/builds", "rand", "0.3.13"),
        "/var/log/builds/rand/rand-0.3.13.log"
    );
}

#[test]
fn test_crate_doc_path() {
    assert_eq!(
        crate_doc_path("/srv/docs", "rand", "0.3.13"),
        "/srv/docs/rand/0.3.13"
    );
}
