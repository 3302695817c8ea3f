//! Verification gates: independent read-only checks against a snapshot of
//! repository and registry state.  Each gate is pure; failures accumulate
//! into a single flag, and dry-run decides elsewhere whether a failure is
//! fatal or only reported.

use vstd::prelude::*;
use crate::error::FatalError;
use crate::plan::Package;
use crate::plan::count_pkgs;
use crate::plan::in_strings;
use crate::plan::contains_string;
use crate::plan::target_version_spec;
use crate::version::Version;
use crate::version::full_chars;
use crate::version::version_le;
use crate::version::version_le_exec;

verus! {

/// Publish cadence limits for one run.
#[derive(Debug)]
pub struct RateLimit {
    pub new_packages: usize,
    pub existing_packages: usize,
}

/// A read-only snapshot of the registry index: which (crate, version)
/// pairs exist, and which crate names exist at all.
#[derive(Debug)]
pub struct IndexSnapshot {
    pub published: Vec<(String, String)>,
    pub known_crates: Vec<String>,
}

/// A read-only snapshot of the version-control state.
#[derive(Debug)]
pub struct RepoSnapshot {
    pub tree_clean: bool,
    pub existing_tags: Vec<String>,
    pub branch_ok: bool,
    pub behind_upstream: bool,
}

/// The (name, full version) pair stands in the index snapshot.
pub open spec fn is_published_spec(idx: IndexSnapshot, name: Seq<char>, ver: Seq<char>) -> bool {
    exists|i: int|
        0 <= i < idx.published@.len() && idx.published@[i].0@ == name && idx.published@[i].1@
            == ver
}

/// Whether the index snapshot holds the (name, full version) pair.
pub fn is_published(idx: &IndexSnapshot, name: &String, ver: &String) -> (r: bool)
    ensures
        r == is_published_spec(*idx, name@, ver@),
{
    let n = idx.published.len();
    let mut i: usize = 0;
    while i < n
        invariant
            i <= n,
            n == idx.published@.len(),
            forall|j: int|
                0 <= j < i ==> !(#[trigger] idx.published@[j].0@ == name@ && idx.published@[j].1@
                    == ver@),
        decreases n - i,
    {
        if idx.published[i].0.eq(name) && idx.published[i].1.eq(ver) {
            return true;
        }
        i = i + 1;
    }
    false
}

/// The package publishes to the default registry.
pub open spec fn publishes_to_default(p: Package) -> bool {
    p.config.publish && p.config.registry is None
}

/// The monotonic-versions gate: every planned version is not lower than
/// its package's initial version.
pub open spec fn monotonic_ok(pkgs: Seq<Package>) -> bool {
    forall|i: int|
        0 <= i < pkgs.len() ==> ((#[trigger] pkgs[i]).planned_version matches Some(v)
            ==> version_le(pkgs[i].initial_version, v))
}

/// Runs the monotonic-versions gate.
pub fn verify_monotonically_increasing(pkgs: &Vec<Package>) -> (r: bool)
    ensures
        r == monotonic_ok(pkgs@),
{
    let n = pkgs.len();
    let mut i: usize = 0;
    while i < n
        invariant
            i <= n,
            n == pkgs@.len(),
            forall|j: int|
                0 <= j < i ==> ((#[trigger] pkgs@[j]).planned_version matches Some(v)
                    ==> version_le(pkgs@[j].initial_version, v)),
        decreases n - i,
    {
        match &pkgs[i].planned_version {
            Some(v) => {
                if !version_le_exec(&pkgs[i].initial_version, v) {
                    return false;
                }
            },
            None => {},
        }
        i = i + 1;
    }
    true
}

/// Law: version monotonicity — whenever the monotonic-versions gate
/// passes, every package's planned version is at least its initial
/// version under semantic-version ordering.
pub proof fn lemma_version_monotonicity(pkgs: Seq<Package>, i: int)
    requires
        monotonic_ok(pkgs),
        0 <= i < pkgs.len(),
        pkgs[i].planned_version is Some,
    ensures
        version_le(pkgs[i].initial_version, pkgs[i].planned_version->0),
{
}

/// The tags-missing gate: no planned tag already exists.
pub open spec fn tags_missing_ok(pkgs: Seq<Package>, tags: Seq<String>) -> bool {
    forall|i: int|
        0 <= i < pkgs.len() ==> ((#[trigger] pkgs[i]).planned_tag matches Some(t) ==> !in_strings(
            tags,
            t@,
        ))
}

/// Runs the tags-missing gate against the repository snapshot.
pub fn verify_tags_missing(pkgs: &Vec<Package>, repo: &RepoSnapshot) -> (r: bool)
    ensures
        r == tags_missing_ok(pkgs@, repo.existing_tags@),
{
    let n = pkgs.len();
    let mut i: usize = 0;
    while i < n
        invariant
            i <= n,
            n == pkgs@.len(),
            forall|j: int|
                0 <= j < i ==> ((#[trigger] pkgs@[j]).planned_tag matches Some(t) ==> !in_strings(
                    repo.existing_tags@,
                    t@,
                )),
        decreases n - i,
    {
        match &pkgs[i].planned_tag {
            Some(t) => {
                if contains_string(&repo.existing_tags, t) {
                    return false;
                }
            },
            None => {},
        }
        i = i + 1;
    }
    true
}

/// The double-publish condition: some package that publishes to the
/// default registry already has its target version there.
pub open spec fn double_publish_spec(pkgs: Seq<Package>, idx: IndexSnapshot) -> bool {
    exists|i: int|
        0 <= i < pkgs.len() && publishes_to_default(#[trigger] pkgs[i]) && is_published_spec(
            idx,
            pkgs[i].name@,
            full_chars(target_version_spec(pkgs[i])),
        )
}

/// Detects double publication against the index snapshot.
pub fn detect_double_publish(pkgs: &Vec<Package>, idx: &IndexSnapshot) -> (r: bool)
    ensures
        r == double_publish_spec(pkgs@, *idx),
{
    let n = pkgs.len();
    let mut i: usize = 0;
    while i < n
        invariant
            i <= n,
            n == pkgs@.len(),
            forall|j: int|
                0 <= j < i ==> !(publishes_to_default(#[trigger] pkgs@[j]) && is_published_spec(
                    *idx,
                    pkgs@[j].name@,
                    full_chars(target_version_spec(pkgs@[j])),
                )),
        decreases n - i,
    {
        let p = &pkgs[i];
        if p.config.publish && p.config.registry.is_none() {
            let target: &Version = match &p.planned_version {
                Some(v) => v,
                None => &p.initial_version,
            };
            let full = target.full_version_string();
            if is_published(idx, &p.name, &full) {
                return true;
            }
        }
        i = i + 1;
    }
    false
}

/// The rate-limit gate: within one run, at most `new_packages` first-time
/// publications and `existing_packages` publications of known crates.
pub open spec fn rate_limit_ok(pkgs: Seq<Package>, idx: IndexSnapshot, limits: RateLimit) -> bool {
    count_pkgs(
        pkgs,
        |p: Package| publishes_to_default(p) && !in_strings(idx.known_crates@, p.name@),
    ) <= limits.new_packages && count_pkgs(
        pkgs,
        |p: Package| publishes_to_default(p) && in_strings(idx.known_crates@, p.name@),
    ) <= limits.existing_packages
}

/// Runs the rate-limit gate.
pub fn verify_rate_limit(pkgs: &Vec<Package>, idx: &IndexSnapshot, limits: &RateLimit) -> (r: bool)
    ensures
        r == rate_limit_ok(pkgs@, *idx, *limits),
{
    let ghost fnew = |p: Package| publishes_to_default(p) && !in_strings(idx.known_crates@, p.name@);
    let ghost fold = |p: Package| publishes_to_default(p) && in_strings(idx.known_crates@, p.name@);
    let n = pkgs.len();
    let mut new_count: usize = 0;
    let mut existing_count: usize = 0;
    let mut i: usize = 0;
    while i < n
        invariant
            i <= n,
            n == pkgs@.len(),
            fnew == (|p: Package| publishes_to_default(p) && !in_strings(
                idx.known_crates@,
                p.name@,
            )),
            fold == (|p: Package| publishes_to_default(p) && in_strings(
                idx.known_crates@,
                p.name@,
            )),
            new_count == count_pkgs(pkgs@.subrange(0, i as int), fnew),
            existing_count == count_pkgs(pkgs@.subrange(0, i as int), fold),
            new_count + existing_count <= i,
        decreases n - i,
    {
        proof {
            assert(pkgs@.subrange(0, i + 1).drop_last() =~= pkgs@.subrange(0, i as int));
            assert(pkgs@.subrange(0, i + 1).last() == pkgs@[i as int]);
        }
        let p = &pkgs[i];
        if p.config.publish && p.config.registry.is_none() {
            if contains_string(&idx.known_crates, &p.name) {
                existing_count = existing_count + 1;
            } else {
                new_count = new_count + 1;
            }
        }
        i = i + 1;
    }
    proof {
        assert(pkgs@.subrange(0, n as int) =~= pkgs@);
    }
    new_count <= limits.new_packages && existing_count <= limits.existing_packages
}

/// Packages eligible to supply the shared version.
pub open spec fn shared_eligible(p: Package) -> bool {
    p.config.shared_version && p.planned_version is Some
}

/// All eligible packages carry the same planned version (by full version
/// string).
pub open spec fn shared_versions_consistent(pkgs: Seq<Package>) -> bool {
    forall|i: int, j: int|
        0 <= i < pkgs.len() && 0 <= j < pkgs.len() && shared_eligible(#[trigger] pkgs[i])
            && shared_eligible(#[trigger] pkgs[j]) ==> full_chars(pkgs[i].planned_version->0)
            == full_chars(pkgs[j].planned_version->0)
}

/// The shared version of the run: the first eligible package's planned
/// version, checked identical across all eligible packages; an
/// inconsistency is a configuration error.
pub fn find_shared_versions(pkgs: &Vec<Package>) -> (r: Result<Option<Version>, FatalError>)
    ensures
        r is Ok <==> shared_versions_consistent(pkgs@),
        r matches Ok(Some(v)) ==> exists|i: int|
            0 <= i < pkgs@.len() && shared_eligible(#[trigger] pkgs@[i]) && full_chars(v)
                == full_chars(pkgs@[i].planned_version->0),
        (r matches Ok(o) && o is None) ==> forall|i: int|
            0 <= i < pkgs@.len() ==> !shared_eligible(#[trigger] pkgs@[i]),
        r matches Err(e) ==> e is InvalidWorkspaceConfig,
{
    let n = pkgs.len();
    let mut shared: Option<Version> = None;
    let ghost mut witness: int = 0;
    let mut i: usize = 0;
    while i < n
        invariant
            i <= n,
            n == pkgs@.len(),
            shared is None ==> forall|j: int|
                0 <= j < i ==> !shared_eligible(#[trigger] pkgs@[j]),
            shared matches Some(v) ==> 0 <= witness < i && shared_eligible(pkgs@[witness])
                && full_chars(v) == full_chars(pkgs@[witness].planned_version->0),
            shared matches Some(v) ==> forall|j: int|
                0 <= j < i && shared_eligible(#[trigger] pkgs@[j]) ==> full_chars(
                    pkgs@[j].planned_version->0,
                ) == full_chars(v),
        decreases n - i,
    {
        let p = &pkgs[i];
        if p.config.shared_version {
            match &p.planned_version {
                Some(v) => {
                    match &shared {
                        Some(sv) => {
                            let a = sv.full_version_string();
                            let b = v.full_version_string();
                            if !a.eq(&b) {
                                proof {
                                    assert(shared_eligible(pkgs@[witness]));
                                    assert(shared_eligible(pkgs@[i as int]));
                                    assert(!shared_versions_consistent(pkgs@));
                                }
                                return Err(FatalError::InvalidWorkspaceConfig);
                            }
                        },
                        None => {
                            shared = Some(v.duplicate());
                            proof {
                                witness = i as int;
                            }
                        },
                    }
                },
                None => {},
            }
        }
        i = i + 1;
    }
    proof {
        if shared is Some {
            assert forall|a: int, b: int|
                0 <= a < pkgs@.len() && 0 <= b < pkgs@.len() && shared_eligible(pkgs@[a])
                    && shared_eligible(pkgs@[b]) implies full_chars(pkgs@[a].planned_version->0)
                == full_chars(pkgs@[b].planned_version->0) by {}
        }
    }
    Ok(shared)
}

} // verus!
