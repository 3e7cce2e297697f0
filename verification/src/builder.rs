//! The documentation build pipeline: a strictly sequential, fail-fast
//! step machine per (package, version) pair — clean, fetch, extract,
//! stage, invoke, classify — with the exact command targets each step
//! works on. The caller performs each step's outside work and reports the
//! outcome; the decisions all live here.

use crate::crte::{canonical_name_spec, Crate};
use vstd::prelude::*;
use vstd::string::{StrSliceExecFns, StringExecFns};

verus! {

/// Failures of the documentation build pipeline, one per step.
#[derive(Debug, Clone)]
pub enum DocBuilderError {
    /// Removing a stale build directory failed.
    RemoveBuildDir,
    /// Downloading the crate archive failed, with the captured output.
    DownloadCrateError(String),
    /// Extracting the crate archive failed, with the captured output.
    ExtractCrateError(String),
    /// Staging a local path dependency failed, with the captured output.
    LocalDependencyError(String),
    /// The external documentation build command exited non-zero, with
    /// the captured combined output.
    FailedToBuildCrate(String),
}

/// Where the pipeline stands: the five steps in their fixed order, then
/// one of the two final states.
#[derive(Debug, Clone, Copy, PartialEq, Eq, Structural)]
pub enum BuildStep {
    /// Remove any pre-existing build directory.
    Clean,
    /// Retrieve the versioned archive from the artifact store.
    Fetch,
    /// Unpack the archive into the canonical directory.
    Extract,
    /// Stage the local path dependencies.
    Stage,
    /// Run the external documentation build command.
    Invoke,
    /// Every step succeeded.
    Done,
    /// A step failed and the pipeline stopped.
    Failed,
}

/// The outside work one step asks for, with the exact target it works on.
#[derive(Debug, Clone)]
pub enum BuildAction {
    /// Delete this directory if it exists.
    RemoveBuildDir(String),
    /// Fetch the archive at this URL into the working directory.
    DownloadCrate(String),
    /// Unpack this archive file in the working directory.
    ExtractCrate(String),
    /// Stage the local dependencies of the package in this directory.
    StageDependencies(String),
    /// Run the documentation build command inside this directory.
    RunDocBuild(String),
}

/// One documentation build in flight: the target package and version,
/// the step the pipeline stands at, and the failure once there is one.
#[derive(Debug, Clone)]
pub struct BuildSession {
    pub name: String,
    pub version: String,
    pub step: BuildStep,
    pub failure: Option<DocBuilderError>,
}

impl Crate {
    /// Builds crate documentation: starts the fail-fast pipeline for this
    /// version, standing at the clean step with no failure.
    pub fn build_crate_doc(&self, version_index: usize) -> (s: BuildSession)
        requires
            version_index < self.versions@.len(),
        ensures
            s.name@ == self.name@,
            s.version@ == self.versions@[version_index as int]@,
            s.step == BuildStep::Clean,
            s.failure is None,
    {
        BuildSession {
            name: self.name.clone(),
            version: self.versions[version_index].clone(),
            step: BuildStep::Clean,
            failure: None,
        }
    }
}

impl BuildSession {
    /// The canonical `{name}-{version}` directory this build works in.
    fn canonical_dir(&self) -> (r: String)
        ensures
            r@ == canonical_name_spec(self.name@, self.version@),
    {
        let mut r = self.name.clone();
        r.append("-");
        r.append(self.version.as_str());
        proof {
            reveal_strlit("-");
            assert(r@ =~= canonical_name_spec(self.name@, self.version@));
        }
        r
    }

    /// The outside work the current step asks for: the exact directory,
    /// URL or archive it targets, and nothing once the pipeline stopped.
    pub fn next_action(&self) -> (r: Option<BuildAction>)
        ensures
            self.step == BuildStep::Clean ==> (r matches Some(a) && a matches
                BuildAction::RemoveBuildDir(d) && d@ == canonical_name_spec(
                self.name@,
                self.version@,
            )),
            self.step == BuildStep::Fetch ==> (r matches Some(a) && a matches
                BuildAction::DownloadCrate(u) && u@
                == "https://crates-io.s3-us-west-1.amazonaws.com/crates/"@ + self.name@ + "/"@
                + canonical_name_spec(self.name@, self.version@) + ".crate"@),
            self.step == BuildStep::Extract ==> (r matches Some(a) && a matches
                BuildAction::ExtractCrate(f) && f@ == canonical_name_spec(
                self.name@,
                self.version@,
            ) + ".crate"@),
            self.step == BuildStep::Stage ==> (r matches Some(a) && a matches
                BuildAction::StageDependencies(d) && d@ == canonical_name_spec(
                self.name@,
                self.version@,
            )),
            self.step == BuildStep::Invoke ==> (r matches Some(a) && a matches
                BuildAction::RunDocBuild(d) && d@ == canonical_name_spec(
                self.name@,
                self.version@,
            )),
            self.step == BuildStep::Done || self.step == BuildStep::Failed ==> r is None,
    {
        match self.step {
            BuildStep::Clean => Some(BuildAction::RemoveBuildDir(self.canonical_dir())),
            BuildStep::Fetch => {
                let mut u = String::from_str(
                    "https://crates-io.s3-us-west-1.amazonaws.com/crates/",
                );
                u.append(self.name.as_str());
                u.append("/");
                let dir = self.canonical_dir();
                u.append(dir.as_str());
                u.append(".crate");
                Some(BuildAction::DownloadCrate(u))
            },
            BuildStep::Extract => {
                let mut f = self.canonical_dir();
                f.append(".crate");
                Some(BuildAction::ExtractCrate(f))
            },
            BuildStep::Stage => Some(BuildAction::StageDependencies(self.canonical_dir())),
            BuildStep::Invoke => Some(BuildAction::RunDocBuild(self.canonical_dir())),
            BuildStep::Done => None,
            BuildStep::Failed => None,
        }
    }

    /// Consume one step's outcome: on success the pipeline moves to the
    /// next step in the fixed order and is done after the invocation; on
    /// failure it stops at once with the failed step's typed error, the
    /// captured output kept where the step has one.
    pub fn advance(&mut self, ok: bool, log: &str)
        requires
            old(self).step != BuildStep::Done,
            old(self).step != BuildStep::Failed,
        ensures
            final(self).name == old(self).name,
            final(self).version == old(self).version,
            ok ==> final(self).failure == old(self).failure,
            ok && old(self).step == BuildStep::Clean ==> final(self).step == BuildStep::Fetch,
            ok && old(self).step == BuildStep::Fetch ==> final(self).step == BuildStep::Extract,
            ok && old(self).step == BuildStep::Extract ==> final(self).step == BuildStep::Stage,
            ok && old(self).step == BuildStep::Stage ==> final(self).step == BuildStep::Invoke,
            ok && old(self).step == BuildStep::Invoke ==> final(self).step == BuildStep::Done,
            !ok ==> final(self).step == BuildStep::Failed,
            !ok && old(self).step == BuildStep::Clean ==> final(self).failure == Some(
                DocBuilderError::RemoveBuildDir,
            ),
            !ok && old(self).step == BuildStep::Fetch ==> (final(self).failure matches Some(e)
                && e matches DocBuilderError::DownloadCrateError(m) && m@ == log@),
            !ok && old(self).step == BuildStep::Extract ==> (final(self).failure matches Some(e)
                && e matches DocBuilderError::ExtractCrateError(m) && m@ == log@),
            !ok && old(self).step == BuildStep::Stage ==> (final(self).failure matches Some(e)
                && e matches DocBuilderError::LocalDependencyError(m) && m@ == log@),
            !ok && old(self).step == BuildStep::Invoke ==> (final(self).failure matches Some(e)
                && e matches DocBuilderError::FailedToBuildCrate(m) && m@ == log@),
    {
        if ok {
            self.step = match self.step {
                BuildStep::Clean => BuildStep::Fetch,
                BuildStep::Fetch => BuildStep::Extract,
                BuildStep::Extract => BuildStep::Stage,
                BuildStep::Stage => BuildStep::Invoke,
                _ => BuildStep::Done,
            };
        } else {
            self.failure = Some(
                match self.step {
                    BuildStep::Clean => DocBuilderError::RemoveBuildDir,
                    BuildStep::Fetch => DocBuilderError::DownloadCrateError(log.to_owned()),
                    BuildStep::Extract => DocBuilderError::ExtractCrateError(log.to_owned()),
                    BuildStep::Stage => DocBuilderError::LocalDependencyError(log.to_owned()),
                    _ => DocBuilderError::FailedToBuildCrate(log.to_owned()),
                },
            );
            self.step = BuildStep::Failed;
        }
    }

    /// Whether the pipeline classified this build as a success: every
    /// step, the external build command included, reported success.
    pub fn succeeded(&self) -> (r: bool)
        ensures
            r == (self.step == BuildStep::Done),
    {
        self.step == BuildStep::Done
    }
}

/// The per-package log file path `{prefix}/{name}/{name}-{version}.log`
/// under the log directory.
pub fn build_log_path(prefix: &str, name: &str, version: &str) -> (r: String)
    ensures
        r@ == prefix@ + "/"@ + name@ + "/"@ + canonical_name_spec(name@, version@) + ".log"@,
{
    let mut r = String::from_str(prefix);
    r.append("/");
    r.append(name);
    r.append("/");
    r.append(name);
    r.append("-");
    r.append(version);
    r.append(".log");
    proof {
        reveal_strlit("-");
        assert(r@ =~= prefix@ + "/"@ + name@ + "/"@ + canonical_name_spec(name@, version@)
            + ".log"@);
    }
    r
}

/// The documentation output path `{prefix}/{name}/{version}` under the
/// destination directory.
pub fn crate_doc_path(prefix: &str, name: &str, version: &str) -> (r: String)
    ensures
        r@ == prefix@ + "/"@ + name@ + "/"@ + version@,
{
    let mut r = String::from_str(prefix);
    r.append("/");
    r.append(name);
    r.append("/");
    r.append(version);
    r
}

} // verus!
