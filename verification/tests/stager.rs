//! The dependency stager's decisions: which entries are staged, and the
//! exact step sequence that stages one of them.

use cratesfyi::crte::{Crate, IndexEntry, IndexNode, IndexTree};
use cratesfyi::deps::{stage_task_actions, StageAction};
use cratesfyi::manifest::DepEntry;

fn s(x: &str) -> String {
    x.to_string()
}

fn index_with_dep1() -> IndexTree {
    IndexTree {
        entries: vec![IndexEntry {
            name: s("dep1"),
            node: IndexNode::Leaf(vec![
                s(r#"{"name":"dep1","vers":"0.1.0"}"#),
                s(r#"{"name":"dep1","vers":"0.1.1"}"#),
            ]),
        }],
    }
}

#[test]
fn test_path_without_version_left_unstaged() {
    // a dependency entry with a path but no version field is left
    // unstaged by the stager
    let crte = Crate::new(s("parent"), vec![s("1.0.0")]);
    let deps = vec![DepEntry {
        name: s("dep1"),
        version: None,
        path: Some(s("deps/dep1")),
    }];
    let tasks = crte.get_local_dependencies(&deps, &index_with_dep1());
    assert!(tasks.is_empty());
}

#[test]
fn test_registry_dependency_left_unstaged() {
    let crte = Crate::new(s("parent"), vec![s("1.0.0")]);
    let deps = vec![DepEntry {
        name: s("dep1"),
        version: Some(s("0.1")),
        path: None,
    }];
    let tasks = crte.get_local_dependencies(&deps, &index_with_dep1());
    assert!(tasks.is_empty());
}

#[test]
fn test_path_and_version_staged() {
    let crte = Crate::new(s("parent"), vec![s("1.0.0")]);
    let deps = vec![
        DepEntry {
            name: s("dep1"),
            version: Some(s("0.1")),
            path: Some(s("deps/dep1")),
        },
        DepEntry {
            name: s("missing"),
            version: Some(s("1.0")),
            path: Some(s("deps/missing")),
        },
    ];
    let tasks = crte.get_local_dependencies(&deps, &index_with_dep1());
    assert_eq!(tasks.len(), 1);
    assert_eq!(tasks[0].0.name, "dep1");
    assert_eq!(tasks[0].0.versions, vec![s("0.1.1"), s("0.1.0")]);
    assert_eq!(tasks[0].1, 0);
    assert_eq!(tasks[0].2, "deps/dep1");
}

#[test]
fn test_local_dependency_tasks_from_manifest() {
    let crte = Crate::new(s("parent"), vec![s("1.0.0")]);
    let manifest = r#"
[package]
name = "parent"
version = "1.0.0"

[dependencies]
dep1 = { path = "deps/dep1", version = "0.1" }
plain = "1.0"
pathonly = { path = "deps/pathonly" }
"#;
    let tasks = crte.local_dependency_tasks(manifest, &index_with_dep1());
    assert_eq!(tasks.len(), 1);
    assert_eq!(tasks[0].0.name, "dep1");
    assert_eq!(tasks[0].2, "deps/dep1");
}

#[test]
fn test_stage_task_actions_sequence() {
    let dep = Crate::new(s("dep1"), vec![s("0.1.1"), s("0.1.0")]);
    let task = (dep, 0usize, s("deps/dep1"));
    let actions = stage_task_actions(&task);
    assert_eq!(actions.len(), 7);
    assert!(matches!(&actions[0], StageAction::EnsureDir(p) if p == "deps/dep1"));
    assert!(matches!(&actions[1], StageAction::Download(u)
        if u == "https://crates-io.s3-us-west-1.amazonaws.com/crates/dep1/dep1-0.1.1.crate"));
    assert!(matches!(&actions[2], StageAction::Extract(f) if f == "dep1-0.1.1.crate"));
    assert!(matches!(&actions[3], StageAction::CheckDownloadDir(d) if d == "dep1-0.1.1"));
    assert!(
        matches!(&actions[4], StageAction::CopyTree(from, to) if from == "dep1-0.1.1" && to == "deps/dep1")
    );
    assert!(matches!(&actions[5], StageAction::RemoveDir(d) if d == "dep1-0.1.1"));
    assert!(matches!(&actions[6], StageAction::RemoveFile(f) if f == "dep1-0.1.1.crate"));
}
