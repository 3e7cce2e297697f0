//! The dependency stager's decisions: which manifest dependencies are
//! staged — exactly those declared with both a local path and a version
//! requirement, resolved against the mirrored index — and the explicit
//! sequence of typed filesystem steps that stages one of them.

use crate::crte::{resolve_entries, Crate, CrateOpenError, IndexTree};
use crate::manifest::{dep_views, manifest_deps_of, toml_dependencies, DepEntry};
use crate::text::starts_with_spec;
use vstd::prelude::*;
use vstd::string::StringExecFns;

verus! {

/// The position of the first version starting with the prefix, scanned
/// front to back.
pub open spec fn first_prefix_index(vs: Seq<Seq<char>>, v: Seq<char>) -> Option<int>
    decreases vs.len(),
{
    if vs.len() == 0 {
        None
    } else if starts_with_spec(vs[0], v) {
        Some(0)
    } else {
        match first_prefix_index(vs.drop_first(), v) {
            Some(i) => Some(i + 1),
            None => None,
        }
    }
}

/// The version a requirement picks: `*` always picks position 0, the
/// latest; any other requirement picks the first version it literally
/// prefixes.
pub open spec fn prefix_choice(vs: Seq<Seq<char>>, v: Seq<char>) -> Option<int> {
    if v == "*"@ {
        Some(0)
    } else {
        first_prefix_index(vs, v)
    }
}

proof fn lemma_first_prefix_index(vs: Seq<Seq<char>>, v: Seq<char>, r: Option<int>)
    requires
        crate::crte::is_first_prefix_match(vs, v, r),
    ensures
        first_prefix_index(vs, v) == r,
    decreases vs.len(),
{
    if vs.len() == 0 {
    } else if starts_with_spec(vs[0], v) {
        match r {
            Some(i) => {
                if i != 0 {
                    assert(!starts_with_spec(vs[0], v));
                }
            },
            None => {
                assert(!starts_with_spec(vs[0], v));
            },
        }
    } else {
        let rest = vs.drop_first();
        assert(forall|j: int| 0 <= j < rest.len() ==> rest[j] == vs[j + 1]);
        match r {
            Some(i) => {
                assert(0 < i);
                assert(crate::crte::is_first_prefix_match(rest, v, Some(i - 1)));
                lemma_first_prefix_index(rest, v, Some(i - 1));
            },
            None => {
                assert(crate::crte::is_first_prefix_match(rest, v, None));
                lemma_first_prefix_index(rest, v, None);
            },
        }
    }
}

/// The staging tasks a dependency list asks for, in order: one per entry
/// declared with both a `path` and a `version` that resolves from the
/// index and whose requirement picks a version; every other entry — in
/// particular one with a `path` but no `version` field — is left
/// unstaged.
pub open spec fn stage_tasks_spec(
    ds: Seq<(Seq<char>, Option<Seq<char>>, Option<Seq<char>>)>,
    tree: IndexTree,
) -> Seq<(Seq<char>, Seq<Seq<char>>, int, Seq<char>)>
    decreases ds.len(),
{
    if ds.len() == 0 {
        Seq::empty()
    } else {
        let d = ds[0];
        let rest = stage_tasks_spec(ds.drop_first(), tree);
        if d.1 is Some && d.2 is Some {
            match resolve_entries(d.0, tree.entries@) {
                Ok(p) => match prefix_choice(p.1, d.1->0) {
                    Some(i) => seq![(p.0, p.1, i, d.2->0)] + rest,
                    None => rest,
                },
                Err(_) => rest,
            }
        } else {
            rest
        }
    }
}

/// The plain view of one staging task.
pub open spec fn task_view(t: (Crate, usize, String)) -> (
    Seq<char>,
    Seq<Seq<char>>,
    int,
    Seq<char>,
) {
    (t.0.name@, t.0.versions.deep_view(), t.1 as int, t.2@)
}

/// The plain view of a staging task list.
pub open spec fn task_views(ts: Seq<(Crate, usize, String)>) -> Seq<
    (Seq<char>, Seq<Seq<char>>, int, Seq<char>),
> {
    Seq::new(ts.len(), |i: int| task_view(ts[i]))
}

impl Crate {
    /// Get's local_dependencies from the dependency entries: for every
    /// entry declared with both a local path and a version requirement,
    /// the dependency resolved from the index with the version its
    /// requirement picks and the declared relative path; entries with a
    /// path but no version, with no path, or that do not resolve are left
    /// unstaged.
    #[verifier::loop_isolation(false)]
    pub fn get_local_dependencies(&self, deps: &Vec<DepEntry>, index: &IndexTree) -> (r: Vec<
        (Crate, usize, String),
    >)
        ensures
            task_views(r@) == stage_tasks_spec(dep_views(deps@), *index),
    {
        let ghost whole = dep_views(deps@);
        proof {
            assert(whole.skip(0) =~= whole);
        }
        let mut r: Vec<(Crate, usize, String)> = Vec::new();
        let n = deps.len();
        let mut i: usize = 0;
        while i < n
            invariant
                n == deps@.len(),
                whole.len() == n,
                i <= n,
                stage_tasks_spec(whole, *index) =~= task_views(r@) + stage_tasks_spec(
                    whole.skip(i as int),
                    *index,
                ),
            decreases n - i,
        {
            proof {
                assert(whole.skip(i as int)[0] == whole[i as int]);
                assert(whole[i as int] == crate::manifest::dep_view(deps@[i as int]));
                assert(whole.skip(i as int).drop_first() =~= whole.skip(i as int + 1));
            }
            let has_both: bool = deps[i].path.is_some() && deps[i].version.is_some();
            if has_both {
                match Crate::from_cargo_index_path(deps[i].name.as_str(), index) {
                    Ok(dep_crate) => {
                        let ver = match &deps[i].version {
                            Some(v) => v,
                            None => {
                                proof {
                                    assert(false);
                                }
                                return r;
                            },
                        };
                        match dep_crate.version_starts_with(ver.as_str()) {
                            Some(vi) => {
                                proof {
                                    if ver@ != "*"@ {
                                        lemma_first_prefix_index(
                                            dep_crate.versions.deep_view(),
                                            ver@,
                                            Some(vi as int),
                                        );
                                    }
                                }
                                let pth = match &deps[i].path {
                                    Some(p) => p.clone(),
                                    None => {
                                        proof {
                                            assert(false);
                                        }
                                        return r;
                                    },
                                };
                                let ghost prev = r@;
                                r.push((dep_crate, vi, pth));
                                proof {
                                    assert(task_views(r@)[prev.len() as int] == task_view(
                                        r@[prev.len() as int],
                                    ));
                                    assert(forall|x: int|
                                        0 <= x < prev.len() ==> task_views(r@)[x] == task_views(
                                            prev,
                                        )[x]);
                                    assert(task_views(r@) =~= task_views(prev) + seq![
                                        task_view(r@[prev.len() as int]),
                                    ]);
                                    assert(stage_tasks_spec(whole, *index) =~= task_views(r@)
                                        + stage_tasks_spec(whole.skip(i as int + 1), *index));
                                }
                            },
                            None => {
                                proof {
                                    if ver@ != "*"@ {
                                        lemma_first_prefix_index(
                                            dep_crate.versions.deep_view(),
                                            ver@,
                                            None,
                                        );
                                    }
                                }
                            },
                        }
                    },
                    Err(_) => {},
                }
            }
            i += 1;
        }
        proof {
            assert(stage_tasks_spec(whole.skip(n as int), *index) =~= Seq::<
                (Seq<char>, Seq<Seq<char>>, int, Seq<char>),
            >::empty());
            assert(task_views(r@) =~= task_views(r@) + Seq::empty());
        }
        r
    }

    /// The staging tasks a package directory's manifest text asks for,
    /// resolved against the index: the typed replacement for reading the
    /// dependency table and picking the local dependencies in one sweep.
    pub fn local_dependency_tasks(&self, manifest_text: &str, index: &IndexTree) -> (r: Vec<
        (Crate, usize, String),
    >)
        ensures
            task_views(r@) == stage_tasks_spec(manifest_deps_of(manifest_text@), *index),
    {
        let deps = toml_dependencies(manifest_text);
        self.get_local_dependencies(&deps, index)
    }
}

/// One typed step of staging a local dependency on disk.
#[derive(Debug, Clone)]
pub enum StageAction {
    /// Create the declared relative path when it does not exist yet.
    EnsureDir(String),
    /// Fetch the dependency's archive from the artifact store.
    Download(String),
    /// Unpack the downloaded archive in the working directory.
    Extract(String),
    /// The extraction directory must exist now, or staging fails.
    CheckDownloadDir(String),
    /// Relocate the extracted tree into the declared path.
    CopyTree(String, String),
    /// Delete the now-redundant extraction directory.
    RemoveDir(String),
    /// Delete the now-redundant downloaded archive.
    RemoveFile(String),
}

/// The explicit step sequence that stages one resolved local dependency:
/// ensure the declared path exists, download and extract the archive,
/// check the extraction directory, relocate it into the path, then delete
/// the extraction directory and the archive.
pub fn stage_task_actions(task: &(Crate, usize, String)) -> (r: Vec<StageAction>)
    requires
        task.1 < task.0.versions@.len(),
    ensures
        r@.len() == 7,
        r@[0] matches StageAction::EnsureDir(p) && p@ == task.2@,
        r@[1] matches StageAction::Download(u) && u@
            == "https://crates-io.s3-us-west-1.amazonaws.com/crates/"@ + task.0.name@ + "/"@
            + crate::crte::canonical_name_spec(
            task.0.name@,
            task.0.versions@[task.1 as int]@,
        ) + ".crate"@,
        r@[2] matches StageAction::Extract(f) && f@ == crate::crte::canonical_name_spec(
            task.0.name@,
            task.0.versions@[task.1 as int]@,
        ) + ".crate"@,
        r@[3] matches StageAction::CheckDownloadDir(d) && d@ == crate::crte::canonical_name_spec(
            task.0.name@,
            task.0.versions@[task.1 as int]@,
        ),
        r@[4] matches StageAction::CopyTree(from, to) && from@ == crate::crte::canonical_name_spec(
            task.0.name@,
            task.0.versions@[task.1 as int]@,
        ) && to@ == task.2@,
        r@[5] matches StageAction::RemoveDir(d) && d@ == crate::crte::canonical_name_spec(
            task.0.name@,
            task.0.versions@[task.1 as int]@,
        ),
        r@[6] matches StageAction::RemoveFile(f) && f@ == crate::crte::canonical_name_spec(
            task.0.name@,
            task.0.versions@[task.1 as int]@,
        ) + ".crate"@,
{
    let dir = task.0.canonical_name(task.1);
    let file = task.0.crate_file_name(task.1);
    let url = task.0.download_url(task.1);
    let mut r: Vec<StageAction> = Vec::new();
    r.push(StageAction::EnsureDir(task.2.clone()));
    r.push(StageAction::Download(url));
    r.push(StageAction::Extract(file.clone()));
    r.push(StageAction::CheckDownloadDir(dir.clone()));
    r.push(StageAction::CopyTree(dir.clone(), task.2.clone()));
    r.push(StageAction::RemoveDir(dir));
    r.push(StageAction::RemoveFile(file));
    r
}

} // verus!
