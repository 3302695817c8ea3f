//! The release plan: per-package state and configuration owned by the
//! coordinator for the run's duration, plan-resolution (prior-tag
//! overrides, requested bumps, exclusion marking, selection), and the
//! rewriting of dependent version requirements.

use vstd::prelude::*;
use crate::error::FatalError;
use crate::replace::Replace;
use crate::version::TargetVersion;
use crate::version::Version;
use crate::version::bump_version;
use crate::version::bumpable;
use crate::version::full_chars;
use crate::version::dec_chars;
use crate::version::chars_to_string;
use crate::version::version_le;

verus! {

/// How a dependent's version requirement is treated when this package's
/// version moves: rewritten to the new version, or held fixed and
/// checked for compatibility.
#[derive(PartialEq, Eq, Structural, Clone, Copy, Debug)]
pub enum DependencyPolicy {
    Upgrade,
    Fix,
}

/// The supported shapes of a version requirement.
#[derive(PartialEq, Eq, Structural, Clone, Copy, Debug)]
pub enum ReqOp {
    /// A caret requirement: compatible within the leftmost nonzero part.
    Caret,
    /// An exact requirement.
    Exact,
    /// Any other shape; the engine cannot rewrite it.
    Other,
}

/// A dependent package's version requirement on this package.
#[derive(Debug)]
pub struct VersionReq {
    pub op: ReqOp,
    pub major: u64,
    pub minor: u64,
    pub patch: u64,
    /// The requirement as written, for diagnostics.
    pub text: String,
}

/// One dependent of a package: where its manifest lies and what it
/// currently requires.
#[derive(Debug)]
pub struct Dependent {
    pub manifest_path: String,
    pub req: VersionReq,
}

/// Per-package release configuration.
#[derive(Debug)]
pub struct PackageConfig {
    pub release: bool,
    pub publish: bool,
    pub registry: Option<String>,
    pub pre_release_commit_message: String,
    pub post_release_commit_message: String,
    pub pre_release_replacements: Vec<Replace>,
    pub post_release_replacements: Vec<Replace>,
    pub pre_release_hook: Option<Vec<String>>,
    pub sign_commit: bool,
    pub consolidate_commits: bool,
    pub shared_version: bool,
    pub dependent_version: DependencyPolicy,
}

/// One workspace member under release consideration.
#[derive(Debug)]
pub struct Package {
    pub name: String,
    pub manifest_path: String,
    pub package_root: String,
    pub config: PackageConfig,
    pub initial_version: Version,
    pub planned_version: Option<Version>,
    pub post_version: Option<Version>,
    pub prior_tag: Option<String>,
    pub planned_tag: Option<String>,
    pub dependents: Vec<Dependent>,
}

/// Workspace-level configuration shared by all packages, and where the
/// workspace root lies.
#[derive(Debug)]
pub struct WorkspaceConfig {
    pub workspace_root: String,
    pub pre_release_commit_message: String,
    pub post_release_commit_message: String,
    pub sign_commit: bool,
}

/// The ordered packages under consideration plus the identities excluded
/// by selection (kept for diagnostics only, never mutated).
#[derive(Debug)]
pub struct ReleasePlan {
    pub packages: Vec<Package>,
    pub excluded: Vec<String>,
}

/// The version a package is released at: the planned one, or the initial
/// one when no change is planned.
pub open spec fn target_version_spec(p: Package) -> Version {
    match p.planned_version {
        Some(v) => v,
        None => p.initial_version,
    }
}

/// Whether `s` stands in the string list.
pub open spec fn in_strings(v: Seq<String>, s: Seq<char>) -> bool {
    exists|i: int| 0 <= i < v.len() && v[i]@ == s
}

/// Whether `s` stands in the string list.
pub fn contains_string(v: &Vec<String>, s: &String) -> (r: bool)
    ensures
        r == in_strings(v@, s@),
{
    let n = v.len();
    let mut i: usize = 0;
    while i < n
        invariant
            i <= n,
            n == v@.len(),
            forall|j: int| 0 <= j < i ==> v@[j]@ != s@,
        decreases n - i,
    {
        if v[i].eq(s) {
            return true;
        }
        i = i + 1;
    }
    false
}

/// How many packages of the sequence satisfy the predicate.
pub open spec fn count_pkgs(pkgs: Seq<Package>, f: spec_fn(Package) -> bool) -> nat
    decreases pkgs.len(),
{
    if pkgs.len() == 0 {
        0
    } else {
        count_pkgs(pkgs.drop_last(), f) + if f(pkgs.last()) {
            1nat
        } else {
            0nat
        }
    }
}

/// The requirement's characters: the operator prefix and the referenced
/// version triple.
pub open spec fn req_chars(op: ReqOp, major: u64, minor: u64, patch: u64) -> Seq<char> {
    (match op {
        ReqOp::Caret => seq!['^'],
        ReqOp::Exact => seq!['='],
        ReqOp::Other => Seq::<char>::empty(),
    }) + dec_chars(major as nat) + seq!['.'] + dec_chars(minor as nat) + seq!['.'] + dec_chars(
        patch as nat,
    )
}

/// Whether a version satisfies a requirement; prerelease versions never
/// satisfy a plain requirement.
pub open spec fn req_matches(req: VersionReq, v: Version) -> bool {
    v.pre is None && match req.op {
        ReqOp::Exact => v.major == req.major && v.minor == req.minor && v.patch == req.patch,
        ReqOp::Caret => {
            if req.major > 0 {
                v.major == req.major && (v.minor > req.minor || (v.minor == req.minor && v.patch
                    >= req.patch))
            } else if req.minor > 0 {
                v.major == 0 && v.minor == req.minor && v.patch >= req.patch
            } else {
                v.major == 0 && v.minor == 0 && v.patch == req.patch
            }
        },
        ReqOp::Other => false,
    }
}

/// Whether a version satisfies a requirement.
pub fn req_matches_exec(req: &VersionReq, v: &Version) -> (r: bool)
    ensures
        r == req_matches(*req, *v),
{
    if v.pre.is_some() {
        return false;
    }
    match req.op {
        ReqOp::Exact => v.major == req.major && v.minor == req.minor && v.patch == req.patch,
        ReqOp::Caret => {
            if req.major > 0 {
                v.major == req.major && (v.minor > req.minor || (v.minor == req.minor && v.patch
                    >= req.patch))
            } else if req.minor > 0 {
                v.major == 0 && v.minor == req.minor && v.patch >= req.patch
            } else {
                v.major == 0 && v.minor == 0 && v.patch == req.patch
            }
        },
        ReqOp::Other => false,
    }
}

/// Rewrites a requirement to reference a new version, keeping its
/// operator.  `None` means the requirement already references the
/// version and needs no edit.  A requirement of an unsupported shape
/// cannot be rewritten.
pub fn upgrade_requirement(req: &VersionReq, v: &Version) -> (r: Result<Option<String>, FatalError>)
    ensures
        req.op is Other ==> (r matches Err(FatalError::UnsupportedVersionReq(t)) && t@
            == req.text@),
        !(req.op is Other) && req.major == v.major && req.minor == v.minor && req.patch == v.patch
            ==> r == Ok::<Option<String>, FatalError>(None),
        !(req.op is Other) && !(req.major == v.major && req.minor == v.minor && req.patch
            == v.patch) ==> (r matches Ok(Some(s)) && s@ == req_chars(
            req.op,
            v.major,
            v.minor,
            v.patch,
        )),
{
    if matches!(req.op, ReqOp::Other) {
        return Err(FatalError::UnsupportedVersionReq(req.text.clone()));
    }
    if req.major == v.major && req.minor == v.minor && req.patch == v.patch {
        return Ok(None);
    }
    let mut out: Vec<char> = Vec::new();
    match req.op {
        ReqOp::Caret => {
            out.push('^');
        },
        ReqOp::Exact => {
            out.push('=');
        },
        ReqOp::Other => {},
    }
    crate::version::push_u64(&mut out, v.major);
    out.push('.');
    crate::version::push_u64(&mut out, v.minor);
    out.push('.');
    crate::version::push_u64(&mut out, v.patch);
    proof {
        assert(out@ =~= req_chars(req.op, v.major, v.minor, v.patch));
    }
    Ok(Some(chars_to_string(&out)))
}

impl Package {
    /// Overrides the recorded prior release tag.
    pub fn set_prior_tag(&mut self, tag: String)
        ensures
            final(self).prior_tag matches Some(t) && t@ == tag@,
            final(self).name == old(self).name,
            final(self).manifest_path == old(self).manifest_path,
            final(self).package_root == old(self).package_root,
            final(self).config == old(self).config,
            final(self).initial_version == old(self).initial_version,
            final(self).planned_version == old(self).planned_version,
            final(self).post_version == old(self).post_version,
            final(self).planned_tag == old(self).planned_tag,
            final(self).dependents == old(self).dependents,
    {
        self.prior_tag = Some(tag);
    }

    /// Applies a requested bump or explicit version: the result becomes
    /// the planned version exactly when it differs from the initial one
    /// (by full version string); metadata overrides build metadata.
    pub fn bump(&mut self, target: &TargetVersion, metadata: Option<&String>)
        requires
            target is Relative ==> bumpable(old(self).initial_version),
        ensures
            final(self).name == old(self).name,
            final(self).manifest_path == old(self).manifest_path,
            final(self).package_root == old(self).package_root,
            final(self).config == old(self).config,
            final(self).initial_version == old(self).initial_version,
            final(self).post_version == old(self).post_version,
            final(self).prior_tag == old(self).prior_tag,
            final(self).planned_tag == old(self).planned_tag,
            final(self).dependents == old(self).dependents,
            final(self).planned_version matches Some(v) ==> full_chars(v) != full_chars(
                old(self).initial_version,
            ),
            target matches TargetVersion::Relative(l) ==> (final(self).planned_version matches Some(
                v,
            ) ==> v.pre is None && version_le(old(self).initial_version, v)),
            target matches TargetVersion::Relative(l) ==> ({
                let t = crate::version::bumped_triple(old(self).initial_version, *l);
                let bf = crate::version::triple_full_chars(
                    t.0,
                    t.1,
                    t.2,
                    match metadata {
                        Some(m) => m@,
                        None => Seq::<char>::empty(),
                    },
                );
                &&& (final(self).planned_version is None <==> bf == full_chars(
                    old(self).initial_version,
                ))
                &&& (final(self).planned_version matches Some(v) ==> full_chars(v) == bf)
            }),
            target matches TargetVersion::Absolute(av) ==> ({
                let avfull = match metadata {
                    Some(m) => crate::version::bare_chars(*av) + if m@.len() == 0 {
                        Seq::<char>::empty()
                    } else {
                        seq!['+'] + m@
                    },
                    None => full_chars(*av),
                };
                &&& (final(self).planned_version is None <==> avfull == full_chars(
                    old(self).initial_version,
                ))
                &&& (final(self).planned_version matches Some(v) ==> full_chars(v) == avfull)
            }),
            target matches TargetVersion::Absolute(av) ==> (final(self).planned_version matches Some(
                v,
            ) ==> v.major == av.major && v.minor == av.minor && v.patch == av.patch && (
            v.pre is None <==> av.pre is None) && (v.pre matches Some(p) ==> (
            av.pre matches Some(q) && p.id@ == q.id@ && p.num == q.num)) && v.build@ == (
            match metadata {
                Some(m) => m@,
                None => av.build@,
            })),
    {
        let new_version: Version = match target {
            TargetVersion::Relative(level) => bump_version(&self.initial_version, *level, metadata),
            TargetVersion::Absolute(v) => {
                let mut v2 = v.duplicate();
                match metadata {
                    Some(m) => {
                        v2.build = m.clone();
                    },
                    None => {},
                }
                v2
            },
        };
        let new_full = new_version.full_version_string();
        let old_full = self.initial_version.full_version_string();
        if !new_full.eq(&old_full) {
            self.planned_version = Some(new_version);
        } else {
            self.planned_version = None;
        }
    }
}

/// Equality of every configuration field but the release switch.
pub open spec fn config_except_release_eq(a: PackageConfig, b: PackageConfig) -> bool {
    &&& a.publish == b.publish
    &&& a.registry == b.registry
    &&& a.pre_release_commit_message == b.pre_release_commit_message
    &&& a.post_release_commit_message == b.post_release_commit_message
    &&& a.pre_release_replacements == b.pre_release_replacements
    &&& a.post_release_replacements == b.post_release_replacements
    &&& a.pre_release_hook == b.pre_release_hook
    &&& a.sign_commit == b.sign_commit
    &&& a.consolidate_commits == b.consolidate_commits
    &&& a.shared_version == b.shared_version
    &&& a.dependent_version == b.dependent_version
}

/// The per-package effect of exclusion marking: a package named in the
/// excluded list loses its release flag and planned version, any other
/// is untouched.
pub open spec fn excluded_mark_ok(p0: Package, p1: Package, excluded: Seq<String>) -> bool {
    if in_strings(excluded, p0.name@) {
        &&& !p1.config.release
        &&& config_except_release_eq(p1.config, p0.config)
        &&& p1.planned_version is None
        &&& p1.name == p0.name
        &&& p1.manifest_path == p0.manifest_path
        &&& p1.package_root == p0.package_root
        &&& p1.initial_version == p0.initial_version
        &&& p1.post_version == p0.post_version
        &&& p1.prior_tag == p0.prior_tag
        &&& p1.planned_tag == p0.planned_tag
        &&& p1.dependents == p0.dependents
    } else {
        p1 == p0
    }
}

/// Marks every package whose name stands in the excluded list as not
/// released and clears its planned version; other packages are untouched.
pub fn mark_excluded(pkgs: &mut Vec<Package>, excluded: &Vec<String>)
    ensures
        final(pkgs)@.len() == old(pkgs)@.len(),
        forall|i: int|
            0 <= i < old(pkgs)@.len() ==> excluded_mark_ok(
                #[trigger] old(pkgs)@[i],
                final(pkgs)@[i],
                excluded@,
            ),
{
    let n = pkgs.len();
    let mut i: usize = 0;
    while i < n
        invariant
            i <= n,
            n == pkgs@.len(),
            pkgs@.len() == old(pkgs)@.len(),
            forall|j: int| i <= j < n ==> pkgs@[j] == old(pkgs)@[j],
            forall|j: int|
                0 <= j < i ==> excluded_mark_ok(
                    #[trigger] old(pkgs)@[j],
                    pkgs@[j],
                    excluded@,
                ),
        decreases n - i,
    {
        if contains_string(excluded, &pkgs[i].name) {
            let p = &mut pkgs[i];
            p.config.release = false;
            p.planned_version = None;
        }
        i = i + 1;
    }
}

/// The released subsequence of the plan, in plan order.
pub open spec fn select_spec(pkgs: Seq<Package>) -> Seq<Package>
    decreases pkgs.len(),
{
    if pkgs.len() == 0 {
        Seq::<Package>::empty()
    } else {
        select_spec(pkgs.drop_last()) + if pkgs.last().config.release {
            seq![pkgs.last()]
        } else {
            Seq::<Package>::empty()
        }
    }
}

/// Every selected package is enabled for release.
pub proof fn lemma_select_spec_released(pkgs: Seq<Package>)
    ensures
        forall|j: int|
            0 <= j < select_spec(pkgs).len() ==> (#[trigger] select_spec(pkgs)[j]).config.release,
        select_spec(pkgs).len() <= pkgs.len(),
    decreases pkgs.len(),
{
    if pkgs.len() > 0 {
        lemma_select_spec_released(pkgs.drop_last());
    }
}

/// What to report about a package the operator excluded; diagnostics
/// only, never a mutation.
#[derive(PartialEq, Eq, Structural, Clone, Copy, Debug)]
pub enum ExclusionNote {
    /// Files changed since the prior release tag.
    ChangedFiles,
    /// Only the lock artifact changed since the prior release tag.
    LockChanged,
    /// Nothing changed since the prior release tag.
    NoChanges,
    /// The recorded prior tag does not exist in the repository.
    TagMissing,
    /// No prior tag is recorded at all.
    NoTag,
}

/// Classifies an excluded package for the diagnostic pass: a pure,
/// read-only side computation over what the version-control collaborator
/// saw since the prior tag (`None` when the tag was not found).
pub fn exclusion_note(prior_tag: &Option<String>, changed: Option<(bool, bool)>) -> (r:
    ExclusionNote)
    ensures
        prior_tag is None ==> r == ExclusionNote::NoTag,
        prior_tag is Some && changed is None ==> r == ExclusionNote::TagMissing,
        prior_tag is Some && changed is Some ==> r == (if (changed->0).0 {
            ExclusionNote::ChangedFiles
        } else if (changed->0).1 {
            ExclusionNote::LockChanged
        } else {
            ExclusionNote::NoChanges
        }),
{
    if prior_tag.is_none() {
        return ExclusionNote::NoTag;
    }
    match changed {
        None => ExclusionNote::TagMissing,
        Some((files, lock)) => {
            if files {
                ExclusionNote::ChangedFiles
            } else if lock {
                ExclusionNote::LockChanged
            } else {
                ExclusionNote::NoChanges
            }
        },
    }
}

/// A plan with nothing enabled selects nothing.
pub proof fn lemma_select_spec_empty(pkgs: Seq<Package>)
    requires
        forall|i: int| 0 <= i < pkgs.len() ==> !(#[trigger] pkgs[i]).config.release,
    ensures
        select_spec(pkgs).len() == 0,
    decreases pkgs.len(),
{
    if pkgs.len() > 0 {
        lemma_select_spec_empty(pkgs.drop_last());
    }
}

/// Every selected package comes from the plan.
pub proof fn lemma_select_spec_membership(pkgs: Seq<Package>, j: int)
    requires
        0 <= j < select_spec(pkgs).len(),
    ensures
        exists|i: int| 0 <= i < pkgs.len() && pkgs[i] == select_spec(pkgs)[j],
    decreases pkgs.len(),
{
    if pkgs.len() > 0 {
        let prev = select_spec(pkgs.drop_last());
        if j < prev.len() {
            lemma_select_spec_membership(pkgs.drop_last(), j);
            let i = choose|i: int|
                0 <= i < pkgs.drop_last().len() && pkgs.drop_last()[i] == prev[j];
            assert(pkgs[i] == select_spec(pkgs)[j]);
        } else {
            assert(pkgs[pkgs.len() - 1] == select_spec(pkgs)[j]);
        }
    }
}

/// Keeps only the packages enabled for release, in plan order.
pub fn select_packages(pkgs: Vec<Package>) -> (r: Vec<Package>)
    ensures
        r@ == select_spec(pkgs@),
        forall|j: int| 0 <= j < r@.len() ==> (#[trigger] r@[j]).config.release,
{
    let ghost orig = pkgs@;
    let mut pkgs = pkgs;
    let n = pkgs.len();
    let mut out: Vec<Package> = Vec::new();
    let mut i: usize = 0;
    while i < n
        invariant
            i <= n,
            n == orig.len(),
            pkgs@ =~= orig.skip(i as int),
            out@ =~= select_spec(orig.subrange(0, i as int)),
        decreases n - i,
    {
        proof {
            assert(orig.subrange(0, i + 1).drop_last() =~= orig.subrange(0, i as int));
            assert(orig.subrange(0, i + 1).last() == orig[i as int]);
            assert(orig.skip(i as int)[0] == orig[i as int]);
            assert(orig.skip(i as int).remove(0) =~= orig.skip(i + 1));
        }
        let p = pkgs.remove(0);
        if p.config.release {
            out.push(p);
        }
        proof {
            assert(out@ =~= select_spec(orig.subrange(0, i + 1)));
        }
        i = i + 1;
    }
    proof {
        assert(orig.subrange(0, n as int) =~= orig);
        lemma_select_spec_released(orig);
    }
    out
}

} // verus!
