//! The closed error taxonomy of the release pipeline.
//!
//! Every fallible operation of the coordinator maps its failure into exactly
//! one [`FatalError`] kind before surfacing it.  A [`ProcessError`] is what
//! the process finally reports: either a silent numeric exit code, or a
//! fatal error carried with the conventional fatal exit code `101`.

use vstd::prelude::*;

verus! {

/// One kind per failure class; collaborator diagnostics are carried as
/// plain strings, never as foreign error values.
#[derive(Debug)]
pub enum FatalError {
    /// An input/output failure reported by a collaborator.
    IoError(String),
    /// A replacement rule named a file that does not exist.
    FileNotFound(String),
    /// Malformed manifest or lock data.
    InvalidManifest(String),
    /// Malformed workspace configuration.
    InvalidWorkspaceConfig,
    /// Malformed version data.
    InvalidVersion(String),
    /// A release level other than `major`, `minor` or `patch`.
    InvalidReleaseLevel(String),
    /// A prerelease identifier outside the supported `pre` / `dev` /
    /// `alpha.1`-style grammar.
    UnsupportedPrereleaseVersionScheme,
    /// A dependency version requirement the engine cannot rewrite.
    UnsupportedVersionReq(String),
    /// A replacement rule missing its file, search or replace field.
    ReplacerConfigError,
    /// A search pattern that failed to compile as a regular expression.
    ReplacerRegexError(String),
    /// Fewer pattern matches than the rule's required minimum:
    /// pattern, required, actual.
    ReplacerMinError(String, usize, usize),
    /// More pattern matches than the rule's allowed maximum:
    /// pattern, allowed, actual.
    ReplacerMaxError(String, usize, usize),
    /// A required environment variable was missing.
    VarError(String),
    /// The version-control tool is not installed.
    GitBinError,
    /// Waiting for a publication to appear in the registry timed out.
    PublishTimeoutError,
    /// A dependency is configured to conflict with the new version.
    DependencyVersionConflict,
    /// A generic registry-index failure, wrapping the diagnostic.
    IndexError(String),
    /// A generic version-control failure, wrapping the diagnostic.
    VcsError(String),
}

/// What the process reports when the pipeline stops: an exit code, and
/// optionally the fatal error that caused it.
#[derive(Debug)]
pub struct ProcessError {
    error: Option<FatalError>,
    code: i32,
}

impl ProcessError {
    /// An exit with a code and no message.
    pub fn silent(code: i32) -> (r: Self)
        ensures
            r.error_spec() is None,
            r.code_spec() == code,
    {
        Self { error: None, code }
    }

    /// A fatal error; such an exit always carries code `101`.
    pub fn message(e: FatalError) -> (r: Self)
        ensures
            r.error_spec() == Some(e),
            r.code_spec() == 101,
    {
        Self { error: Some(e), code: 101 }
    }

    /// The error carried, if any.
    pub closed spec fn error_spec(&self) -> Option<FatalError> {
        self.error
    }

    /// The exit code carried.
    pub closed spec fn code_spec(&self) -> i32 {
        self.code
    }

    /// The numeric exit code to report.
    pub fn code(&self) -> (r: i32)
        ensures
            r == self.code_spec(),
    {
        self.code
    }

    /// Surrenders the carried error for reporting.
    pub fn into_error(self) -> (r: Option<FatalError>)
        ensures
            r == self.error_spec(),
    {
        self.error
    }
}

impl From<i32> for ProcessError {
    /// A bare exit code converts to a silent exit.
    fn from(code: i32) -> (r: Self) {
        Self::silent(code)
    }
}

impl vstd::std_specs::convert::FromSpecImpl<i32> for ProcessError {
    open spec fn obeys_from_spec() -> bool {
        true
    }

    closed spec fn from_spec(code: i32) -> Self {
        ProcessError { error: None, code }
    }
}

/// What the numeric conversion yields: the silent exit with that code,
/// carrying no message.
pub broadcast proof fn lemma_from_code_is_silent(code: i32)
    ensures
        #[trigger] <ProcessError as vstd::std_specs::convert::FromSpec<i32>>::from_spec(
            code,
        ).code_spec() == code,
        <ProcessError as vstd::std_specs::convert::FromSpec<i32>>::from_spec(
            code,
        ).error_spec() is None,
{
}

} // verus!
