//! The pipeline coordinator: a linear state machine over the release
//! plan.  It resolves the plan, runs the verification gates, and produces
//! the ordered action script of the run — per-package manifest edits,
//! dependent-requirement rewrites, replacements, hooks, commits
//! (per-package or consolidated), publications, tags and the final push.
//! Mutating collaborators execute the script outside; in dry-run mode the
//! script is the report of what would happen.

use vstd::prelude::*;
use vstd::string::StringExecFns;
use crate::error::FatalError;
use crate::error::ProcessError;
use crate::gates::IndexSnapshot;
use crate::gates::RateLimit;
use crate::gates::RepoSnapshot;
use crate::gates::detect_double_publish;
use crate::gates::double_publish_spec;
use crate::gates::find_shared_versions;
use crate::gates::monotonic_ok;
use crate::gates::rate_limit_ok;
use crate::gates::shared_versions_consistent;
use crate::gates::tags_missing_ok;
use crate::gates::verify_monotonically_increasing;
use crate::gates::verify_rate_limit;
use crate::gates::verify_tags_missing;
use crate::plan::Dependent;
use crate::plan::DependencyPolicy;
use crate::plan::Package;
use crate::plan::ReleasePlan;
use crate::plan::WorkspaceConfig;
use crate::plan::count_pkgs;
use crate::plan::in_strings;
use crate::plan::mark_excluded;
use crate::plan::excluded_mark_ok;
use crate::plan::req_chars;
use crate::plan::req_matches;
use crate::plan::req_matches_exec;
use crate::plan::select_packages;
use crate::plan::select_spec;
use crate::plan::target_version_spec;
use crate::plan::upgrade_requirement;
use crate::template::Template;
use crate::template::bound;
use crate::template::render_spec;
use crate::version::TargetVersion;
use crate::version::Version;
use crate::version::bare_chars;
use crate::version::bumpable;
use crate::version::full_chars;
use crate::version::version_le;

verus! {

/// Which side of the release a step belongs to.
#[derive(PartialEq, Eq, Structural, Clone, Copy, Debug)]
pub enum Phase {
    Pre,
    Post,
}

/// One step of the release script.  Indices refer to the selected
/// packages of the report, in plan order.
#[derive(Debug)]
pub enum Action {
    /// Write the version into the package's manifest.
    SetVersion { package: usize, manifest_path: String, version: String },
    /// Rewrite a dependent's requirement on the named package.
    UpdateDependent { manifest_path: String, dep_name: String, req: String },
    /// Refresh the lock artifact of the manifest.
    UpdateLock { manifest_path: String },
    /// Apply the package's configured replacements for the phase.
    Replacements { package: usize, phase: Phase },
    /// Run the package's pre-release hook with the given arguments and
    /// environment; a non-zero exit aborts the whole run.
    RunHook { package: usize, args: Vec<String>, env: Vec<(String, String)> },
    /// Commit everything under `root`.
    Commit { root: String, message: String, sign: bool },
    /// Publish the package to its registry.
    Publish { package: usize },
    /// Create the package's planned tag.
    Tag { package: usize, name: String },
    /// Push commits and tags to the remote.
    Push,
}

/// The outcome of a run: the selected packages, the ordered script, the
/// shared version, the accumulated gate-failure flag, and the mode.
#[derive(Debug)]
pub struct ReleaseReport {
    pub selected: Vec<Package>,
    pub actions: Vec<Action>,
    pub shared_version: Option<Version>,
    pub failed: bool,
    pub dry_run: bool,
}

/// How many actions of the sequence satisfy the predicate.
pub open spec fn count_actions(a: Seq<Action>, f: spec_fn(Action) -> bool) -> nat
    decreases a.len(),
{
    if a.len() == 0 {
        0
    } else {
        count_actions(a.drop_last(), f) + if f(a.last()) {
            1nat
        } else {
            0nat
        }
    }
}

/// The number of commit actions in the script.
pub open spec fn commit_count(a: Seq<Action>) -> nat {
    count_actions(a, |x: Action| x is Commit)
}

/// The number of publish actions in the script.
pub open spec fn publish_count(a: Seq<Action>) -> nat {
    count_actions(a, |x: Action| x is Publish)
}

/// The number of tag actions in the script.
pub open spec fn tag_count(a: Seq<Action>) -> nat {
    count_actions(a, |x: Action| x is Tag)
}

/// The number of push actions in the script.
pub open spec fn push_count(a: Seq<Action>) -> nat {
    count_actions(a, |x: Action| x is Push)
}

/// How many hook actions of the script refer to the package at `i`.
pub open spec fn hook_count_for(a: Seq<Action>, i: int) -> nat {
    count_actions(a, |x: Action| x matches Action::RunHook { package, .. } && package as int == i)
}

pub proof fn lemma_count_actions_push(a: Seq<Action>, f: spec_fn(Action) -> bool, x: Action)
    ensures
        count_actions(a.push(x), f) == count_actions(a, f) + if f(x) {
            1nat
        } else {
            0nat
        },
{
    assert(a.push(x).drop_last() =~= a);
    assert(a.push(x).last() == x);
}

/// Appends one action, accounting for every tracked action kind.
fn push_action(actions: &mut Vec<Action>, a: Action)
    ensures
        final(actions)@ == old(actions)@.push(a),
        commit_count(final(actions)@) == commit_count(old(actions)@) + if a is Commit {
            1nat
        } else {
            0nat
        },
        publish_count(final(actions)@) == publish_count(old(actions)@) + if a is Publish {
            1nat
        } else {
            0nat
        },
        tag_count(final(actions)@) == tag_count(old(actions)@) + if a is Tag {
            1nat
        } else {
            0nat
        },
        push_count(final(actions)@) == push_count(old(actions)@) + if a is Push {
            1nat
        } else {
            0nat
        },
        forall|p: int|
            #[trigger] hook_count_for(final(actions)@, p) == hook_count_for(old(actions)@, p) + (
            if (a matches Action::RunHook { package, .. } && package as int == p) {
                1nat
            } else {
                0nat
            }),
{
    proof {
        lemma_count_actions_push(actions@, |x: Action| x is Commit, a);
        lemma_count_actions_push(actions@, |x: Action| x is Publish, a);
        lemma_count_actions_push(actions@, |x: Action| x is Tag, a);
        lemma_count_actions_push(actions@, |x: Action| x is Push, a);
        assert forall|p: int|
            hook_count_for(actions@.push(a), p) == hook_count_for(actions@, p) + (
            if (a matches Action::RunHook { package, .. } && package as int == p) {
                1nat
            } else {
                0nat
            }) by {
            lemma_count_actions_push(
                actions@,
                |x: Action| x matches Action::RunHook { package, .. } && package as int == p,
                a,
            );
        }
    }
    actions.push(a);
}

/// A package whose pre-release change is committed on its own.
pub open spec fn pre_commit_pred(p: Package) -> bool {
    p.planned_version is Some && !p.config.consolidate_commits
}

/// A package whose pre-release change folds into the shared commit.
pub open spec fn pre_consolidated(p: Package) -> bool {
    p.planned_version is Some && p.config.consolidate_commits
}

/// A package whose post-release change is committed on its own.
pub open spec fn post_commit_pred(p: Package) -> bool {
    p.post_version is Some && !p.config.consolidate_commits
}

/// A package whose post-release change folds into the shared commit.
pub open spec fn post_consolidated(p: Package) -> bool {
    p.post_version is Some && p.config.consolidate_commits
}

/// One, when some package of the run asks for the phase's shared commit.
pub open spec fn shared_flag(pkgs: Seq<Package>, f: spec_fn(Package) -> bool) -> nat {
    if exists|i: int| 0 <= i < pkgs.len() && f(#[trigger] pkgs[i]) {
        1nat
    } else {
        0nat
    }
}

/// Commits of the pre-release phase: one per independently committed
/// version change, plus the shared commit when anyone consolidates.
pub open spec fn pre_commits_spec(pkgs: Seq<Package>) -> nat {
    count_pkgs(pkgs, |p: Package| pre_commit_pred(p)) + shared_flag(
        pkgs,
        |p: Package| pre_consolidated(p),
    )
}

/// Commits of the post-release phase, as in the pre-release phase.
pub open spec fn post_commits_spec(pkgs: Seq<Package>) -> nat {
    count_pkgs(pkgs, |p: Package| post_commit_pred(p)) + shared_flag(
        pkgs,
        |p: Package| post_consolidated(p),
    )
}

/// All commits of the run.
pub open spec fn total_commits_spec(pkgs: Seq<Package>) -> nat {
    pre_commits_spec(pkgs) + post_commits_spec(pkgs)
}

pub proof fn lemma_count_pkgs_equiv(
    pkgs: Seq<Package>,
    f: spec_fn(Package) -> bool,
    g: spec_fn(Package) -> bool,
)
    requires
        forall|i: int| 0 <= i < pkgs.len() ==> f(#[trigger] pkgs[i]) == g(pkgs[i]),
    ensures
        count_pkgs(pkgs, f) == count_pkgs(pkgs, g),
    decreases pkgs.len(),
{
    if pkgs.len() > 0 {
        lemma_count_pkgs_equiv(pkgs.drop_last(), f, g);
    }
}

pub proof fn lemma_count_pkgs_zero(pkgs: Seq<Package>, f: spec_fn(Package) -> bool)
    requires
        forall|i: int| 0 <= i < pkgs.len() ==> !f(#[trigger] pkgs[i]),
    ensures
        count_pkgs(pkgs, f) == 0,
    decreases pkgs.len(),
{
    if pkgs.len() > 0 {
        lemma_count_pkgs_zero(pkgs.drop_last(), f);
    }
}

/// Law: consolidation exclusivity, independent half — when no package
/// consolidates, each phase produces exactly one commit per package with
/// a version change in that phase.
pub proof fn lemma_consolidation_independent(pkgs: Seq<Package>)
    requires
        forall|i: int| !(#[trigger] pkgs[i]).config.consolidate_commits || !(0 <= i < pkgs.len()),
    ensures
        pre_commits_spec(pkgs) == count_pkgs(pkgs, |p: Package| p.planned_version is Some),
        post_commits_spec(pkgs) == count_pkgs(pkgs, |p: Package| p.post_version is Some),
{
    lemma_count_pkgs_equiv(
        pkgs,
        |p: Package| pre_commit_pred(p),
        |p: Package| p.planned_version is Some,
    );
    lemma_count_pkgs_equiv(
        pkgs,
        |p: Package| post_commit_pred(p),
        |p: Package| p.post_version is Some,
    );
    assert(shared_flag(pkgs, |p: Package| pre_consolidated(p)) == 0);
    assert(shared_flag(pkgs, |p: Package| post_consolidated(p)) == 0);
}

/// Law: consolidation exclusivity, shared half — when every package
/// consolidates, each phase produces exactly one commit as soon as any
/// package has a version change in that phase, however many packages
/// there are.
pub proof fn lemma_consolidation_shared(pkgs: Seq<Package>)
    requires
        forall|i: int| (#[trigger] pkgs[i]).config.consolidate_commits || !(0 <= i < pkgs.len()),
    ensures
        pre_commits_spec(pkgs) == if exists|i: int|
            0 <= i < pkgs.len() && (#[trigger] pkgs[i]).planned_version is Some {
            1nat
        } else {
            0nat
        },
        post_commits_spec(pkgs) == if exists|i: int|
            0 <= i < pkgs.len() && (#[trigger] pkgs[i]).post_version is Some {
            1nat
        } else {
            0nat
        },
{
    lemma_count_pkgs_zero(pkgs, |p: Package| pre_commit_pred(p));
    lemma_count_pkgs_zero(pkgs, |p: Package| post_commit_pred(p));
    if exists|i: int| 0 <= i < pkgs.len() && (#[trigger] pkgs[i]).planned_version is Some {
        let i = choose|i: int|
            0 <= i < pkgs.len() && (#[trigger] pkgs[i]).planned_version is Some;
        assert(pre_consolidated(pkgs[i]));
    }
    if exists|i: int| 0 <= i < pkgs.len() && (#[trigger] pkgs[i]).post_version is Some {
        let i = choose|i: int| 0 <= i < pkgs.len() && (#[trigger] pkgs[i]).post_version is Some;
        assert(post_consolidated(pkgs[i]));
    }
}

/// Whether one dependent can follow this version move under the policy.
pub open spec fn dep_ok(d: Dependent, policy: DependencyPolicy, v: Version) -> bool {
    match policy {
        DependencyPolicy::Upgrade => !(d.req.op is Other),
        DependencyPolicy::Fix => req_matches(d.req, v),
    }
}

/// Whether every dependent of the package can follow the version move.
pub open spec fn dependents_ok(p: Package, v: Version) -> bool {
    forall|j: int|
        0 <= j < p.dependents@.len() ==> dep_ok(
            #[trigger] p.dependents@[j],
            p.config.dependent_version,
            v,
        )
}

/// Both phases' dependent moves of one package are possible.
pub open spec fn pkg_dependents_ok(p: Package) -> bool {
    &&& p.planned_version matches Some(v) ==> dependents_ok(p, v)
    &&& p.post_version matches Some(w) ==> dependents_ok(p, w)
}

/// Propagates a version move to every dependent: requirement rewrites
/// under the upgrade policy become script actions; under the fix policy
/// an incompatible requirement is a conflict.  Succeeds exactly when
/// every dependent can follow.
pub fn update_dependent_versions(pkg: &Package, version: &Version, actions: &mut Vec<Action>) -> (r:
    Result<(), FatalError>)
    ensures
        r is Ok <==> dependents_ok(*pkg, *version),
        r matches Err(e) ==> e is UnsupportedVersionReq || e is DependencyVersionConflict,
        commit_count(final(actions)@) == commit_count(old(actions)@),
        publish_count(final(actions)@) == publish_count(old(actions)@),
        tag_count(final(actions)@) == tag_count(old(actions)@),
        push_count(final(actions)@) == push_count(old(actions)@),
        final(actions)@.len() >= old(actions)@.len(),
        forall|k: int| 0 <= k < old(actions)@.len() ==> final(actions)@[k] == old(actions)@[k],
        forall|k: int|
            old(actions)@.len() <= k < final(actions)@.len() ==> (#[trigger] final(
                actions
            )@[k]) is UpdateDependent,
        forall|p: int|
            #[trigger] hook_count_for(final(actions)@, p) == hook_count_for(old(actions)@, p),
        forall|k: int|
            old(actions)@.len() <= k < final(actions)@.len() ==> update_entry_for(
                #[trigger] final(actions)@[k],
                *pkg,
                *version,
            ),
{
    let n = pkg.dependents.len();
    let mut j: usize = 0;
    while j < n
        invariant
            j <= n,
            n == pkg.dependents@.len(),
            forall|k: int|
                0 <= k < j ==> dep_ok(
                    #[trigger] pkg.dependents@[k],
                    pkg.config.dependent_version,
                    *version,
                ),
            commit_count(actions@) == commit_count(old(actions)@),
            publish_count(actions@) == publish_count(old(actions)@),
            tag_count(actions@) == tag_count(old(actions)@),
            push_count(actions@) == push_count(old(actions)@),
            actions@.len() >= old(actions)@.len(),
            forall|k: int| 0 <= k < old(actions)@.len() ==> actions@[k] == old(actions)@[k],
            forall|k: int|
                old(actions)@.len() <= k < actions@.len() ==> (#[trigger] actions@[
                    k
                ]) is UpdateDependent,
            forall|p: int|
                #[trigger] hook_count_for(actions@, p) == hook_count_for(old(actions)@, p),
            forall|k: int|
                old(actions)@.len() <= k < actions@.len() ==> update_entry_for(
                    #[trigger] actions@[k],
                    *pkg,
                    *version,
                ),
        decreases n - j,
    {
        let d = &pkg.dependents[j];
        match pkg.config.dependent_version {
            DependencyPolicy::Upgrade => {
                match upgrade_requirement(&d.req, version) {
                    Ok(Some(req)) => {
                        let act = Action::UpdateDependent {
                            manifest_path: d.manifest_path.clone(),
                            dep_name: pkg.name.clone(),
                            req,
                        };
                        proof {
                            assert((pkg.dependents@[j as int]).manifest_path@ == d.manifest_path@);
                            assert(update_entry_for(act, *pkg, *version));
                        }
                        push_action(actions, act);
                    },
                    Ok(None) => {},
                    Err(e) => {
                        return Err(e);
                    },
                }
            },
            DependencyPolicy::Fix => {
                if !req_matches_exec(&d.req, version) {
                    return Err(FatalError::DependencyVersionConflict);
                }
            },
        }
        j = j + 1;
    }
    Ok(())
}

/// The view-level bindings of a package's pre-release template.
pub open spec fn pre_template_ok(t: Template, p: Package, date: Seq<char>) -> bool {
    &&& bound(t.prev_version) == bare_chars(p.initial_version)
    &&& bound(t.prev_metadata) == p.initial_version.build@
    &&& bound(t.version) == bare_chars(target_version_spec(p))
    &&& bound(t.metadata) == target_version_spec(p).build@
    &&& bound(t.crate_name) == p.name@
    &&& bound(t.date) == date
    &&& (p.planned_tag matches Some(tg) ==> bound(t.tag_name) == tg@)
    &&& (p.planned_tag is None ==> t.tag_name is None)
    &&& t.next_version is None
    &&& t.next_metadata is None
}

/// The view-level bindings of a package's post-release template: as the
/// pre-release ones, plus the next development version.
pub open spec fn post_template_ok(t: Template, p: Package, next: Version, date: Seq<char>) -> bool {
    &&& bound(t.prev_version) == bare_chars(p.initial_version)
    &&& bound(t.prev_metadata) == p.initial_version.build@
    &&& bound(t.version) == bare_chars(target_version_spec(p))
    &&& bound(t.metadata) == target_version_spec(p).build@
    &&& bound(t.crate_name) == p.name@
    &&& bound(t.date) == date
    &&& (p.planned_tag matches Some(tg) ==> bound(t.tag_name) == tg@)
    &&& bound(t.next_version) == bare_chars(next)
    &&& bound(t.next_metadata) == next.build@
}

/// The view-level bindings of a shared, workspace-level commit template.
pub open spec fn shared_template_ok(
    t: Template,
    version: Option<Version>,
    next: Option<Version>,
    date: Seq<char>,
) -> bool {
    &&& (version matches Some(v) ==> bound(t.version) == bare_chars(v) && bound(t.metadata)
        == v.build@)
    &&& (version is None ==> t.version is None && t.metadata is None)
    &&& (next matches Some(w) ==> bound(t.next_version) == bare_chars(w) && bound(t.next_metadata)
        == w.build@)
    &&& (next is None ==> t.next_version is None && t.next_metadata is None)
    &&& bound(t.date) == date
    &&& t.prev_version is None
    &&& t.prev_metadata is None
    &&& t.crate_name is None
    &&& t.tag_name is None
}

/// The template of a package's pre-release phase: previous and new
/// version with their metadata, the crate name, the run's date, and the
/// planned tag when one exists.
pub fn pre_release_template(pkg: &Package, date: &String) -> (t: Template)
    ensures
        pre_template_ok(t, *pkg, date@),
{
    let target: &Version = match &pkg.planned_version {
        Some(v) => v,
        None => &pkg.initial_version,
    };
    Template {
        prev_version: Some(pkg.initial_version.bare_version_string()),
        prev_metadata: Some(pkg.initial_version.build.clone()),
        version: Some(target.bare_version_string()),
        metadata: Some(target.build.clone()),
        crate_name: Some(pkg.name.clone()),
        date: Some(date.clone()),
        tag_name: match &pkg.planned_tag {
            Some(t) => Some(t.clone()),
            None => None,
        },
        next_version: None,
        next_metadata: None,
    }
}

/// The template of a package's post-release phase: as the pre-release
/// one, plus the next development version and its metadata.
pub fn post_release_template(pkg: &Package, next: &Version, date: &String) -> (t: Template)
    ensures
        post_template_ok(t, *pkg, *next, date@),
{
    let mut t = pre_release_template(pkg, date);
    t.next_version = Some(next.bare_version_string());
    t.next_metadata = Some(next.build.clone());
    t
}

/// The fixed eight-variable environment of a lifecycle hook.
pub open spec fn hook_env_ok(
    env: Seq<(String, String)>,
    p: Package,
    ws_root: Seq<char>,
    dry_run: bool,
) -> bool {
    &&& env.len() == 8
    &&& env[0].0@ == "PREV_VERSION"@ && env[0].1@ == bare_chars(p.initial_version)
    &&& env[1].0@ == "PREV_METADATA"@ && env[1].1@ == p.initial_version.build@
    &&& env[2].0@ == "NEW_VERSION"@ && env[2].1@ == bare_chars(target_version_spec(p))
    &&& env[3].0@ == "NEW_METADATA"@ && env[3].1@ == target_version_spec(p).build@
    &&& env[4].0@ == "DRY_RUN"@ && env[4].1@ == (if dry_run {
        "true"@
    } else {
        "false"@
    })
    &&& env[5].0@ == "CRATE_NAME"@ && env[5].1@ == p.name@
    &&& env[6].0@ == "WORKSPACE_ROOT"@ && env[6].1@ == ws_root
    &&& env[7].0@ == "CRATE_ROOT"@ && env[7].1@ == p.package_root@
}

/// The fixed environment contract of a lifecycle hook.
pub fn hook_env(pkg: &Package, ws_root: &String, dry_run: bool) -> (env: Vec<(String, String)>)
    ensures
        hook_env_ok(env@, *pkg, ws_root@, dry_run),
{
    let target: &Version = match &pkg.planned_version {
        Some(v) => v,
        None => &pkg.initial_version,
    };
    let dry: String = if dry_run {
        String::from_str("true")
    } else {
        String::from_str("false")
    };
    let mut env: Vec<(String, String)> = Vec::new();
    env.push((String::from_str("PREV_VERSION"), pkg.initial_version.bare_version_string()));
    env.push((String::from_str("PREV_METADATA"), pkg.initial_version.build.clone()));
    env.push((String::from_str("NEW_VERSION"), target.bare_version_string()));
    env.push((String::from_str("NEW_METADATA"), target.build.clone()));
    env.push((String::from_str("DRY_RUN"), dry));
    env.push((String::from_str("CRATE_NAME"), pkg.name.clone()));
    env.push((String::from_str("WORKSPACE_ROOT"), ws_root.clone()));
    env.push((String::from_str("CRATE_ROOT"), pkg.package_root.clone()));
    env
}

/// The template of a shared, workspace-level commit: the shared version
/// and, for the post-release phase, the shared next version.
fn shared_commit_template(version: &Option<Version>, next: &Option<Version>, date: &String) -> (t:
    Template)
    ensures
        shared_template_ok(t, *version, *next, date@),
{
    let mut t = Template::default();
    match version {
        Some(v) => {
            t.version = Some(v.bare_version_string());
            t.metadata = Some(v.build.clone());
        },
        None => {},
    }
    match next {
        Some(w) => {
            t.next_version = Some(w.bare_version_string());
            t.next_metadata = Some(w.build.clone());
        },
        None => {},
    }
    t.date = Some(date.clone());
    t
}

/// Renders every hook argument through the template.
fn render_args(t: &Template, args: &Vec<String>) -> (r: Vec<String>)
    ensures
        r@.len() == args@.len(),
        forall|i: int| 0 <= i < args@.len() ==> (#[trigger] r@[i])@ == render_spec(*t, args@[i]@),
{
    let n = args.len();
    let mut out: Vec<String> = Vec::new();
    let mut i: usize = 0;
    while i < n
        invariant
            i <= n,
            n == args@.len(),
            out@.len() == i,
            forall|j: int|
                0 <= j < i ==> (#[trigger] out@[j])@ == render_spec(*t, args@[j]@),
        decreases n - i,
    {
        out.push(t.render(args[i].as_str()));
        i = i + 1;
    }
    out
}

/// Two versions with the same observable value.
pub open spec fn version_view_eq(a: Version, b: Version) -> bool {
    &&& a.major == b.major && a.minor == b.minor && a.patch == b.patch
    &&& (a.pre is None <==> b.pre is None)
    &&& (a.pre matches Some(p) ==> (b.pre matches Some(q) && p.id@ == q.id@ && p.num == q.num))
    &&& a.build@ == b.build@
}

/// The first package in plan order that carries the shared-version flag
/// and a post version: the source of the shared next version.
pub open spec fn first_shared_post(pkgs: Seq<Package>) -> Option<Version>
    decreases pkgs.len(),
{
    if pkgs.len() == 0 {
        None
    } else if pkgs[0].config.shared_version && pkgs[0].post_version is Some {
        pkgs[0].post_version
    } else {
        first_shared_post(pkgs.skip(1))
    }
}

proof fn lemma_first_shared_post_extend(s: Seq<Package>, x: Package)
    ensures
        first_shared_post(s.push(x)) == (if first_shared_post(s) is Some {
            first_shared_post(s)
        } else if x.config.shared_version && x.post_version is Some {
            x.post_version
        } else {
            None::<Version>
        }),
    decreases s.len(),
{
    if s.len() == 0 {
        assert(s.push(x).len() == 1);
        assert(s.push(x)[0] == x);
        assert(s.push(x).skip(1) =~= Seq::<Package>::empty());
        assert(first_shared_post(s.push(x).skip(1)) == None::<Version>);
        assert(first_shared_post(s) == None::<Version>);
        if x.config.shared_version && x.post_version is Some {
            assert(first_shared_post(s.push(x)) == x.post_version);
        } else {
            assert(first_shared_post(s.push(x)) == first_shared_post(s.push(x).skip(1)));
        }
    } else {
        assert(s.push(x)[0] == s[0]);
        assert(s.push(x).skip(1) =~= s.skip(1).push(x));
        lemma_first_shared_post_extend(s.skip(1), x);
        if s[0].config.shared_version && s[0].post_version is Some {
            assert(first_shared_post(s.push(x)) == s[0].post_version);
            assert(first_shared_post(s) == s[0].post_version);
        } else {
            assert(first_shared_post(s.push(x)) == first_shared_post(s.skip(1).push(x)));
            assert(first_shared_post(s) == first_shared_post(s.skip(1)));
        }
    }
}

/// The shared next version: view-equal to the first shared-flagged
/// package's post version, absent exactly when there is none.
pub open spec fn shared_next_ok(n: Option<Version>, pkgs: Seq<Package>) -> bool {
    match (n, first_shared_post(pkgs)) {
        (Some(a), Some(b)) => version_view_eq(a, b),
        (None, None) => true,
        _ => false,
    }
}

/// What any hook action of a script must be: its package plans a version
/// and configures a hook, its arguments are the hook's rendered through
/// the package's pre-release template, and its environment is the fixed
/// eight-variable one.
pub open spec fn hook_entry_ok(
    a: Action,
    pkgs: Seq<Package>,
    ws_root: Seq<char>,
    dry_run: bool,
    date: Seq<char>,
) -> bool {
    a matches Action::RunHook { package, args, env } ==> ({
        &&& 0 <= package < pkgs.len()
        &&& pkgs[package as int].planned_version is Some
        &&& (pkgs[package as int].config.pre_release_hook matches Some(h) && args@.len()
            == h@.len() && (exists|t: Template|
            #[trigger] pre_template_ok(t, pkgs[package as int], date) && (forall|j: int|
                0 <= j < h@.len() ==> (#[trigger] args@[j])@ == render_spec(t, h@[j]@))))
        &&& hook_env_ok(env@, pkgs[package as int], ws_root, dry_run)
    })
}

/// What any commit action of a script must be: one package's own commit
/// with its rendered message at its root, or a phase's shared commit
/// with the workspace's rendered message at the workspace root.
pub open spec fn commit_entry_ok(
    a: Action,
    pkgs: Seq<Package>,
    ws: WorkspaceConfig,
    shared_version: Option<Version>,
    date: Seq<char>,
) -> bool {
    a matches Action::Commit { root, message, sign } ==> ({
        ||| exists|i: int, t: Template|
            0 <= i < pkgs.len() && pre_commit_pred(pkgs[i]) && root@ == pkgs[i].package_root@
                && sign == pkgs[i].config.sign_commit && #[trigger] pre_template_ok(
                t,
                pkgs[i],
                date,
            ) && message@ == render_spec(t, pkgs[i].config.pre_release_commit_message@)
        ||| exists|i: int, t: Template|
            0 <= i < pkgs.len() && post_commit_pred(pkgs[i]) && root@ == pkgs[i].package_root@
                && sign == pkgs[i].config.sign_commit && #[trigger] post_template_ok(
                t,
                pkgs[i],
                pkgs[i].post_version->0,
                date,
            ) && message@ == render_spec(t, pkgs[i].config.post_release_commit_message@)
        ||| ((exists|j: int| 0 <= j < pkgs.len() && pre_consolidated(#[trigger] pkgs[j])) && root@
            == ws.workspace_root@ && sign == ws.sign_commit && (exists|t: Template|
            #[trigger] shared_template_ok(t, shared_version, None, date) && message@ == render_spec(
                t,
                ws.pre_release_commit_message@,
            )))
        ||| ((exists|j: int| 0 <= j < pkgs.len() && post_consolidated(#[trigger] pkgs[j])) && root@
            == ws.workspace_root@ && sign == ws.sign_commit && (exists|t: Template, n2: Option<
            Version,
        >|
            shared_next_ok(n2, pkgs) && #[trigger] shared_template_ok(t, shared_version, n2, date)
                && message@ == render_spec(t, ws.post_release_commit_message@)))
    })
}

/// What any dependent-rewrite action for one package and version must
/// be: one of the package's dependents, its requirement rewritten to
/// reference that version.
pub open spec fn update_entry_for(a: Action, p: Package, v: Version) -> bool {
    a matches Action::UpdateDependent { manifest_path, dep_name, req } ==> ({
        &&& dep_name@ == p.name@
        &&& exists|j: int|
            0 <= j < p.dependents@.len() && (#[trigger] p.dependents@[j]).manifest_path@
                == manifest_path@ && req@ == req_chars(
                p.dependents@[j].req.op,
                v.major,
                v.minor,
                v.patch,
            )
    })
}

/// What any dependent-rewrite action of a script must be: some package's
/// dependent, rewritten to that package's planned or post version.
pub open spec fn update_entry_ok(a: Action, pkgs: Seq<Package>) -> bool {
    a matches Action::UpdateDependent { .. } ==> exists|i: int|
        0 <= i < pkgs.len() && (((#[trigger] pkgs[i]).planned_version matches Some(v)
            && update_entry_for(a, pkgs[i], v)) || (pkgs[i].post_version matches Some(w)
            && update_entry_for(a, pkgs[i], w)))
}

/// Both entry obligations at once.
pub open spec fn script_entry_ok(
    a: Action,
    pkgs: Seq<Package>,
    ws: WorkspaceConfig,
    shared_version: Option<Version>,
    dry_run: bool,
    date: Seq<char>,
) -> bool {
    &&& hook_entry_ok(a, pkgs, ws.workspace_root@, dry_run, date)
    &&& commit_entry_ok(a, pkgs, ws, shared_version, date)
    &&& update_entry_ok(a, pkgs)
}

/// Builds the ordered action script for the selected packages: the
/// pre-release phase (manifest edits, dependent rewrites, lock refresh,
/// replacements, hook, commits per the consolidation policy), the
/// publish and tag phases, the post-release phase, and the final push.
/// Succeeds exactly when every dependent requirement can follow its
/// version move.
pub fn release_script(
    pkgs: &Vec<Package>,
    ws: &WorkspaceConfig,
    shared_version: &Option<Version>,
    date: &String,
    dry_run: bool,
) -> (r: Result<Vec<Action>, ProcessError>)
    ensures
        r is Ok <==> (forall|i: int|
            0 <= i < pkgs@.len() ==> pkg_dependents_ok(#[trigger] pkgs@[i])),
        r matches Ok(actions) ==> commit_count(actions@) == total_commits_spec(pkgs@)
            && publish_count(actions@) == count_pkgs(pkgs@, |p: Package| p.config.publish)
            && tag_count(actions@) == count_pkgs(pkgs@, |p: Package| p.planned_tag is Some)
            && push_count(actions@) == 1,
        r matches Err(e) ==> e.code_spec() == 101 && (e.error_spec() matches Some(f) && (
        f is UnsupportedVersionReq || f is DependencyVersionConflict)),
        r matches Ok(actions) ==> (forall|k: int|
            0 <= k < actions@.len() ==> script_entry_ok(
                #[trigger] actions@[k],
                pkgs@,
                *ws,
                *shared_version,
                dry_run,
                date@,
            )),
        r matches Ok(actions) ==> (forall|i: int|
            0 <= i < pkgs@.len() ==> #[trigger] hook_count_for(actions@, i) == (
            if pkgs@[i].planned_version is Some && pkgs@[i].config.pre_release_hook is Some {
                1nat
            } else {
                0nat
            })),
{
    let n = pkgs.len();
    let mut actions: Vec<Action> = Vec::new();
    let mut shared_pre = false;
    let mut i: usize = 0;
    while i < n
        invariant
            i <= n,
            n == pkgs@.len(),
            commit_count(actions@) == count_pkgs(
                pkgs@.subrange(0, i as int),
                |p: Package| pre_commit_pred(p),
            ),
            publish_count(actions@) == 0,
            tag_count(actions@) == 0,
            push_count(actions@) == 0,
            shared_pre == exists|j: int| 0 <= j < i && pre_consolidated(#[trigger] pkgs@[j]),
            forall|j: int|
                0 <= j < i ==> ((#[trigger] pkgs@[j]).planned_version matches Some(v)
                    ==> dependents_ok(pkgs@[j], v)),
            forall|k: int|
                0 <= k < actions@.len() ==> script_entry_ok(
                    #[trigger] actions@[k],
                    pkgs@,
                    *ws,
                    *shared_version,
                    dry_run,
                    date@,
                ),
            forall|p: int|
                #[trigger] hook_count_for(actions@, p) == (if 0 <= p < i
                    && pkgs@[p].planned_version is Some
                    && pkgs@[p].config.pre_release_hook is Some {
                    1nat
                } else {
                    0nat
                }),
        decreases n - i,
    {
        proof {
            assert(pkgs@.subrange(0, i + 1).drop_last() =~= pkgs@.subrange(0, i as int));
            assert(pkgs@.subrange(0, i + 1).last() == pkgs@[i as int]);
        }
        let p = &pkgs[i];
        match &p.planned_version {
            Some(version) => {
                push_action(
                    &mut actions,
                    Action::SetVersion {
                        package: i,
                        manifest_path: p.manifest_path.clone(),
                        version: version.full_version_string(),
                    },
                );
                match update_dependent_versions(p, version, &mut actions) {
                    Ok(()) => {},
                    Err(e) => {
                        proof {
                            assert(!pkg_dependents_ok(pkgs@[i as int]));
                        }
                        return Err(ProcessError::message(e));
                    },
                }
                push_action(
                    &mut actions,
                    Action::UpdateLock { manifest_path: p.manifest_path.clone() },
                );
                if p.config.pre_release_replacements.len() > 0 {
                    push_action(&mut actions, Action::Replacements { package: i, phase: Phase::Pre });
                }
                match &p.config.pre_release_hook {
                    Some(hook) => {
                        let t = pre_release_template(p, date);
                        let args = render_args(&t, hook);
                        let env = hook_env(p, &ws.workspace_root, dry_run);
                        let act = Action::RunHook { package: i, args, env };
                        proof {
                            assert(pre_template_ok(t, pkgs@[i as int], date@));
                            assert(hook_entry_ok(act, pkgs@, ws.workspace_root@, dry_run, date@));
                            assert(commit_entry_ok(act, pkgs@, *ws, *shared_version, date@));
                        }
                        push_action(&mut actions, act);
                    },
                    None => {},
                }
                if p.config.consolidate_commits {
                    shared_pre = true;
                } else {
                    let t = pre_release_template(p, date);
                    let msg = t.render(p.config.pre_release_commit_message.as_str());
                    let act = Action::Commit {
                        root: p.package_root.clone(),
                        message: msg,
                        sign: p.config.sign_commit,
                    };
                    proof {
                        assert(pre_template_ok(t, pkgs@[i as int], date@));
                        assert(pre_commit_pred(pkgs@[i as int]));
                        assert(commit_entry_ok(act, pkgs@, *ws, *shared_version, date@));
                        assert(hook_entry_ok(act, pkgs@, ws.workspace_root@, dry_run, date@));
                    }
                    push_action(&mut actions, act);
                }
            },
            None => {},
        }
        i = i + 1;
    }
    proof {
        assert(pkgs@.subrange(0, n as int) =~= pkgs@);
    }
    if shared_pre {
        let t = shared_commit_template(shared_version, &None, date);
        let msg = t.render(ws.pre_release_commit_message.as_str());
        let act = Action::Commit {
            root: ws.workspace_root.clone(),
            message: msg,
            sign: ws.sign_commit,
        };
        proof {
            assert(shared_template_ok(t, *shared_version, None::<Version>, date@));
            assert(commit_entry_ok(act, pkgs@, *ws, *shared_version, date@));
            assert(hook_entry_ok(act, pkgs@, ws.workspace_root@, dry_run, date@));
        }
        push_action(&mut actions, act);
    }
    proof {
        assert(commit_count(actions@) == pre_commits_spec(pkgs@));
    }
    // publish phase
    let mut i: usize = 0;
    while i < n
        invariant
            i <= n,
            n == pkgs@.len(),
            commit_count(actions@) == pre_commits_spec(pkgs@),
            publish_count(actions@) == count_pkgs(
                pkgs@.subrange(0, i as int),
                |p: Package| p.config.publish,
            ),
            tag_count(actions@) == 0,
            push_count(actions@) == 0,
            forall|j: int|
                0 <= j < n ==> ((#[trigger] pkgs@[j]).planned_version matches Some(v)
                    ==> dependents_ok(pkgs@[j], v)),
            forall|k: int|
                0 <= k < actions@.len() ==> script_entry_ok(
                    #[trigger] actions@[k],
                    pkgs@,
                    *ws,
                    *shared_version,
                    dry_run,
                    date@,
                ),
            forall|p: int|
                #[trigger] hook_count_for(actions@, p) == (if 0 <= p < n
                    && pkgs@[p].planned_version is Some
                    && pkgs@[p].config.pre_release_hook is Some {
                    1nat
                } else {
                    0nat
                }),
        decreases n - i,
    {
        proof {
            assert(pkgs@.subrange(0, i + 1).drop_last() =~= pkgs@.subrange(0, i as int));
            assert(pkgs@.subrange(0, i + 1).last() == pkgs@[i as int]);
        }
        if pkgs[i].config.publish {
            push_action(&mut actions, Action::Publish { package: i });
        }
        i = i + 1;
    }
    proof {
        assert(pkgs@.subrange(0, n as int) =~= pkgs@);
    }
    // tag phase
    let mut i: usize = 0;
    while i < n
        invariant
            i <= n,
            n == pkgs@.len(),
            commit_count(actions@) == pre_commits_spec(pkgs@),
            publish_count(actions@) == count_pkgs(pkgs@, |p: Package| p.config.publish),
            tag_count(actions@) == count_pkgs(
                pkgs@.subrange(0, i as int),
                |p: Package| p.planned_tag is Some,
            ),
            push_count(actions@) == 0,
            forall|j: int|
                0 <= j < n ==> ((#[trigger] pkgs@[j]).planned_version matches Some(v)
                    ==> dependents_ok(pkgs@[j], v)),
            forall|k: int|
                0 <= k < actions@.len() ==> script_entry_ok(
                    #[trigger] actions@[k],
                    pkgs@,
                    *ws,
                    *shared_version,
                    dry_run,
                    date@,
                ),
            forall|p: int|
                #[trigger] hook_count_for(actions@, p) == (if 0 <= p < n
                    && pkgs@[p].planned_version is Some
                    && pkgs@[p].config.pre_release_hook is Some {
                    1nat
                } else {
                    0nat
                }),
        decreases n - i,
    {
        proof {
            assert(pkgs@.subrange(0, i + 1).drop_last() =~= pkgs@.subrange(0, i as int));
            assert(pkgs@.subrange(0, i + 1).last() == pkgs@[i as int]);
        }
        match &pkgs[i].planned_tag {
            Some(tag) => {
                push_action(&mut actions, Action::Tag { package: i, name: tag.clone() });
            },
            None => {},
        }
        i = i + 1;
    }
    proof {
        assert(pkgs@.subrange(0, n as int) =~= pkgs@);
    }
    // post-release phase
    let mut shared_post = false;
    let mut shared_post_version: Option<Version> = None;
    proof {
        assert(pkgs@.subrange(0, 0).len() == 0);
        assert(first_shared_post(pkgs@.subrange(0, 0)) == None::<Version>);
    }
    let mut i: usize = 0;
    while i < n
        invariant
            i <= n,
            n == pkgs@.len(),
            commit_count(actions@) == pre_commits_spec(pkgs@) + count_pkgs(
                pkgs@.subrange(0, i as int),
                |p: Package| post_commit_pred(p),
            ),
            publish_count(actions@) == count_pkgs(pkgs@, |p: Package| p.config.publish),
            tag_count(actions@) == count_pkgs(pkgs@, |p: Package| p.planned_tag is Some),
            push_count(actions@) == 0,
            shared_post == exists|j: int| 0 <= j < i && post_consolidated(#[trigger] pkgs@[j]),
            shared_next_ok(shared_post_version, pkgs@.subrange(0, i as int)),
            forall|j: int|
                0 <= j < n ==> ((#[trigger] pkgs@[j]).planned_version matches Some(v)
                    ==> dependents_ok(pkgs@[j], v)),
            forall|j: int|
                0 <= j < i ==> ((#[trigger] pkgs@[j]).post_version matches Some(w)
                    ==> dependents_ok(pkgs@[j], w)),
            forall|k: int|
                0 <= k < actions@.len() ==> script_entry_ok(
                    #[trigger] actions@[k],
                    pkgs@,
                    *ws,
                    *shared_version,
                    dry_run,
                    date@,
                ),
            forall|p: int|
                #[trigger] hook_count_for(actions@, p) == (if 0 <= p < n
                    && pkgs@[p].planned_version is Some
                    && pkgs@[p].config.pre_release_hook is Some {
                    1nat
                } else {
                    0nat
                }),
        decreases n - i,
    {
        proof {
            assert(pkgs@.subrange(0, i + 1).drop_last() =~= pkgs@.subrange(0, i as int));
            assert(pkgs@.subrange(0, i + 1).last() == pkgs@[i as int]);
            assert(pkgs@.subrange(0, i + 1) =~= pkgs@.subrange(0, i as int).push(
                pkgs@[i as int],
            ));
            lemma_first_shared_post_extend(pkgs@.subrange(0, i as int), pkgs@[i as int]);
        }
        let p = &pkgs[i];
        match &p.post_version {
            Some(next) => {
                match update_dependent_versions(p, next, &mut actions) {
                    Ok(()) => {},
                    Err(e) => {
                        proof {
                            assert(!pkg_dependents_ok(pkgs@[i as int]));
                        }
                        return Err(ProcessError::message(e));
                    },
                }
                push_action(
                    &mut actions,
                    Action::SetVersion {
                        package: i,
                        manifest_path: p.manifest_path.clone(),
                        version: next.full_version_string(),
                    },
                );
                push_action(
                    &mut actions,
                    Action::UpdateLock { manifest_path: p.manifest_path.clone() },
                );
                if p.config.post_release_replacements.len() > 0 {
                    push_action(
                        &mut actions,
                        Action::Replacements { package: i, phase: Phase::Post },
                    );
                }
                if p.config.shared_version && shared_post_version.is_none() {
                    shared_post_version = Some(next.duplicate());
                }
                if p.config.consolidate_commits {
                    shared_post = true;
                } else {
                    let t = post_release_template(p, next, date);
                    let msg = t.render(p.config.post_release_commit_message.as_str());
                    let act = Action::Commit {
                        root: p.package_root.clone(),
                        message: msg,
                        sign: p.config.sign_commit,
                    };
                    proof {
                        assert(post_template_ok(
                            t,
                            pkgs@[i as int],
                            pkgs@[i as int].post_version->0,
                            date@,
                        ));
                        assert(post_commit_pred(pkgs@[i as int]));
                        assert(commit_entry_ok(act, pkgs@, *ws, *shared_version, date@));
                        assert(hook_entry_ok(act, pkgs@, ws.workspace_root@, dry_run, date@));
                    }
                    push_action(&mut actions, act);
                }
            },
            None => {},
        }
        i = i + 1;
    }
    proof {
        assert(pkgs@.subrange(0, n as int) =~= pkgs@);
    }
    if shared_post {
        let t = shared_commit_template(shared_version, &shared_post_version, date);
        let msg = t.render(ws.post_release_commit_message.as_str());
        let act = Action::Commit {
            root: ws.workspace_root.clone(),
            message: msg,
            sign: ws.sign_commit,
        };
        proof {
            assert(shared_next_ok(shared_post_version, pkgs@));
            assert(shared_template_ok(t, *shared_version, shared_post_version, date@));
            assert(commit_entry_ok(act, pkgs@, *ws, *shared_version, date@));
            assert(hook_entry_ok(act, pkgs@, ws.workspace_root@, dry_run, date@));
        }
        push_action(&mut actions, act);
    }
    proof {
        assert(commit_count(actions@) == total_commits_spec(pkgs@));
    }
    // push phase
    push_action(&mut actions, Action::Push);
    Ok(actions)
}

/// The accumulated gate-failure flag: every gate contributes.
pub open spec fn gates_failed_spec(
    pkgs: Seq<Package>,
    repo: RepoSnapshot,
    idx: IndexSnapshot,
    limits: RateLimit,
) -> bool {
    ||| !repo.tree_clean
    ||| !tags_missing_ok(pkgs, repo.existing_tags@)
    ||| !monotonic_ok(pkgs)
    ||| double_publish_spec(pkgs, idx)
    ||| !repo.branch_ok
    ||| repo.behind_upstream
    ||| !rate_limit_ok(pkgs, idx, limits)
}

/// The failures that are fatal in execute mode: all of them except the
/// behind-upstream warning.
pub open spec fn gates_fatal_spec(
    pkgs: Seq<Package>,
    repo: RepoSnapshot,
    idx: IndexSnapshot,
    limits: RateLimit,
) -> bool {
    ||| !repo.tree_clean
    ||| !tags_missing_ok(pkgs, repo.existing_tags@)
    ||| !monotonic_ok(pkgs)
    ||| double_publish_spec(pkgs, idx)
    ||| !repo.branch_ok
    ||| !rate_limit_ok(pkgs, idx, limits)
}

/// Runs every verification gate against the snapshots.  In dry-run mode
/// every failure is only recorded; outside dry-run a fatal gate failure
/// (double publication included) aborts before any mutation, with the
/// fatal exit code.
pub fn run_gates(
    pkgs: &Vec<Package>,
    repo: &RepoSnapshot,
    index: &IndexSnapshot,
    limits: &RateLimit,
    dry_run: bool,
) -> (r: Result<bool, ProcessError>)
    ensures
        r is Err <==> !dry_run && gates_fatal_spec(pkgs@, *repo, *index, *limits),
        r matches Ok(failed) ==> failed == gates_failed_spec(pkgs@, *repo, *index, *limits),
        r matches Err(e) ==> e.code_spec() == 101 && e.error_spec() is None,
{
    let mut failed = false;
    let mut fatal = false;
    if !repo.tree_clean {
        failed = true;
        fatal = true;
    }
    if !verify_tags_missing(pkgs, repo) {
        failed = true;
        fatal = true;
    }
    if !verify_monotonically_increasing(pkgs) {
        failed = true;
        fatal = true;
    }
    if detect_double_publish(pkgs, index) {
        failed = true;
        fatal = true;
    }
    if !repo.branch_ok {
        failed = true;
        fatal = true;
    }
    if repo.behind_upstream {
        failed = true;
    }
    if !verify_rate_limit(pkgs, index, limits) {
        failed = true;
        fatal = true;
    }
    if fatal && !dry_run {
        return Err(ProcessError::silent(101));
    }
    Ok(failed)
}

/// Operator confirmation: outside dry-run and unless suppressed, a
/// declined confirmation stops the run silently and successfully.
pub fn confirm(no_confirm: bool, dry_run: bool, confirmed: bool) -> (r: Result<(), ProcessError>)
    ensures
        r is Err <==> !dry_run && !no_confirm && !confirmed,
        r matches Err(e) ==> e.code_spec() == 0 && e.error_spec() is None,
{
    if !dry_run && !no_confirm && !confirmed {
        Err(ProcessError::silent(0))
    } else {
        Ok(())
    }
}

/// The final summary: a recorded gate failure surfaces as a non-zero
/// exit even though execution completed.
pub fn finish(failed: bool, _dry_run: bool) -> (r: Result<(), ProcessError>)
    ensures
        r is Err <==> failed,
        r matches Err(e) ==> e.code_spec() == 101 && e.error_spec() is None,
{
    if failed {
        Err(ProcessError::silent(101))
    } else {
        Ok(())
    }
}

/// One release invocation's options.
pub struct ReleaseStep {
    /// Either bump by a level or set an explicit version for all
    /// selected packages.
    pub level_or_version: Option<TargetVersion>,
    /// Build metadata to attach to the new version.
    pub metadata: Option<String>,
    /// Actually perform the release; dry-run is the default.
    pub execute: bool,
    /// Skip release confirmation.
    pub no_confirm: bool,
    /// The name of the tag of the previous release.
    pub prev_tag_name: Option<String>,
}

/// How the planned version relates to the initial one after a bump
/// request; mirrors [`Package::bump`]'s contract.
pub open spec fn planned_decision_ok(
    initial: Version,
    planned: Option<Version>,
    target: TargetVersion,
    metadata: Option<String>,
) -> bool {
    let mv = match metadata {
        Some(m) => m@,
        None => Seq::<char>::empty(),
    };
    &&& (planned matches Some(v) ==> full_chars(v) != full_chars(initial))
    &&& match target {
        TargetVersion::Relative(l) => {
            let t = crate::version::bumped_triple(initial, l);
            let bf = crate::version::triple_full_chars(t.0, t.1, t.2, mv);
            &&& (planned is None <==> bf == full_chars(initial))
            &&& (planned matches Some(v) ==> full_chars(v) == bf && v.pre is None && version_le(
                initial,
                v,
            ))
        },
        TargetVersion::Absolute(av) => {
            let avfull = match metadata {
                Some(m) => crate::version::bare_chars(av) + if m@.len() == 0 {
                    Seq::<char>::empty()
                } else {
                    seq!['+'] + m@
                },
                None => full_chars(av),
            };
            &&& (planned is None <==> avfull == full_chars(initial))
            &&& (planned matches Some(v) ==> full_chars(v) == avfull && v.major == av.major
                && v.minor == av.minor && v.patch == av.patch && (v.pre is None <==> av.pre is None)
                && (v.pre matches Some(p) ==> (av.pre matches Some(q) && p.id@ == q.id@ && p.num
                == q.num)) && v.build@ == (match metadata {
                Some(m2) => m2@,
                None => av.build@,
            }))
        },
    }
}

/// The per-package effect of the first plan-resolution stage: the
/// prior-tag override and the requested bump, everything else untouched.
pub open spec fn stage1_ok(p0: Package, p1: Package, step: ReleaseStep) -> bool {
    &&& p1.name == p0.name
    &&& p1.manifest_path == p0.manifest_path
    &&& p1.package_root == p0.package_root
    &&& p1.config == p0.config
    &&& p1.initial_version == p0.initial_version
    &&& p1.post_version == p0.post_version
    &&& p1.planned_tag == p0.planned_tag
    &&& p1.dependents == p0.dependents
    &&& match step.prev_tag_name {
        Some(t) => p1.prior_tag matches Some(u) && u@ == t@,
        None => p1.prior_tag == p0.prior_tag,
    }
    &&& match step.level_or_version {
        Some(tv) => planned_decision_ok(p0.initial_version, p1.planned_version, tv, step.metadata),
        None => p1.planned_version == p0.planned_version,
    }
}

/// The per-package effect of plan resolution: stage one, then exclusion
/// marking.
pub open spec fn resolved_ok(p0: Package, p1: Package, step: ReleaseStep, excluded: Seq<String>) -> bool {
    if in_strings(excluded, p0.name@) {
        &&& !p1.config.release
        &&& crate::plan::config_except_release_eq(p1.config, p0.config)
        &&& p1.planned_version is None
        &&& p1.name == p0.name
        &&& p1.manifest_path == p0.manifest_path
        &&& p1.package_root == p0.package_root
        &&& p1.initial_version == p0.initial_version
        &&& p1.post_version == p0.post_version
        &&& p1.planned_tag == p0.planned_tag
        &&& p1.dependents == p0.dependents
        &&& match step.prev_tag_name {
            Some(t) => p1.prior_tag matches Some(u) && u@ == t@,
            None => p1.prior_tag == p0.prior_tag,
        }
    } else {
        stage1_ok(p0, p1, step)
    }
}

/// A fully resolved plan: the element-wise resolution of the incoming
/// one.
pub open spec fn resolved_plan_ok(
    orig: Seq<Package>,
    marked: Seq<Package>,
    step: ReleaseStep,
    excluded: Seq<String>,
) -> bool {
    marked.len() == orig.len() && forall|i: int|
        0 <= i < orig.len() ==> resolved_ok(#[trigger] orig[i], marked[i], step, excluded)
}

/// Everything a successful run needs of a resolved plan's selection: a
/// nonempty selection, no fatal gate in execute mode, confirmation
/// obtained or not required, consistent shared versions, and dependents
/// that can follow every version move.
pub open spec fn run_preconditions_ok(
    sel: Seq<Package>,
    step: ReleaseStep,
    repo: RepoSnapshot,
    idx: IndexSnapshot,
    limits: RateLimit,
    confirmed: bool,
) -> bool {
    &&& sel.len() > 0
    &&& (step.execute ==> !gates_fatal_spec(sel, repo, idx, limits))
    &&& (!step.execute || step.no_confirm || confirmed)
    &&& shared_versions_consistent(sel)
    &&& forall|i: int| 0 <= i < sel.len() ==> pkg_dependents_ok(#[trigger] sel[i])
}

impl ReleaseStep {
    /// The coordinator: applies prior-tag overrides and requested bumps,
    /// marks exclusions, selects, runs the gates, takes the shared
    /// version, asks for confirmation, and produces the run's report
    /// with its ordered action script.  An empty selection exits with
    /// code 2 and no mutation; a fatal gate outside dry-run exits with
    /// code 101 before any mutation.
    pub fn run(
        &self,
        plan: ReleasePlan,
        ws: &WorkspaceConfig,
        repo: &RepoSnapshot,
        index: &IndexSnapshot,
        limits: &RateLimit,
        date: &String,
        confirmed: bool,
    ) -> (r: Result<ReleaseReport, ProcessError>)
        requires
            self.level_or_version matches Some(TargetVersion::Relative(l)) ==> forall|i: int|
                0 <= i < plan.packages@.len() ==> bumpable(
                    (#[trigger] plan.packages@[i]).initial_version,
                ),
        ensures
            r matches Ok(report) ==> report.dry_run == !self.execute && report.failed
                == gates_failed_spec(report.selected@, *repo, *index, *limits) && (!report.dry_run
                ==> !gates_fatal_spec(report.selected@, *repo, *index, *limits)) && commit_count(
                report.actions@,
            ) == total_commits_spec(report.selected@) && publish_count(report.actions@)
                == count_pkgs(report.selected@, |p: Package| p.config.publish) && tag_count(
                report.actions@,
            ) == count_pkgs(report.selected@, |p: Package| p.planned_tag is Some) && push_count(
                report.actions@,
            ) == 1 && report.selected@.len() > 0 && (forall|j: int|
                0 <= j < report.selected@.len() ==> (#[trigger] report.selected@[j]).config.release),
            r matches Err(e) ==> e.code_spec() == 2 || e.code_spec() == 0 || e.code_spec() == 101,
            (forall|i: int|
                0 <= i < plan.packages@.len() ==> in_strings(
                    plan.excluded@,
                    (#[trigger] plan.packages@[i]).name@,
                )) ==> (r matches Err(e) && e.code_spec() == 2 && e.error_spec() is None),
            self.level_or_version matches Some(TargetVersion::Relative(l)) ==> (
            r matches Ok(report) ==> forall|j: int|
                0 <= j < report.selected@.len() ==> ((#[trigger] report.selected@[j]).planned_version matches Some(
                    v,
                ) ==> v.pre is None && version_le(report.selected@[j].initial_version, v))),
            r matches Ok(report) ==> exists|marked: Seq<Package>|
                #[trigger] resolved_plan_ok(plan.packages@, marked, *self, plan.excluded@)
                    && report.selected@ == select_spec(marked),
            (forall|marked: Seq<Package>|
                #[trigger] resolved_plan_ok(plan.packages@, marked, *self, plan.excluded@)
                    ==> run_preconditions_ok(
                    select_spec(marked),
                    *self,
                    *repo,
                    *index,
                    *limits,
                    confirmed,
                )) ==> r is Ok,
            r matches Ok(report) ==> (forall|k: int|
                0 <= k < report.actions@.len() ==> script_entry_ok(
                    #[trigger] report.actions@[k],
                    report.selected@,
                    *ws,
                    report.shared_version,
                    report.dry_run,
                    date@,
                )) && (forall|i: int|
                0 <= i < report.selected@.len() ==> #[trigger] hook_count_for(report.actions@, i)
                    == (if report.selected@[i].planned_version is Some
                    && report.selected@[i].config.pre_release_hook is Some {
                    1nat
                } else {
                    0nat
                })),
            r matches Ok(report) ==> shared_versions_consistent(report.selected@) && (
            report.shared_version matches Some(v) ==> exists|i: int|
                0 <= i < report.selected@.len() && crate::gates::shared_eligible(
                    #[trigger] report.selected@[i],
                ) && full_chars(v) == full_chars(report.selected@[i].planned_version->0)) && (
            report.shared_version is None ==> forall|i: int|
                0 <= i < report.selected@.len() ==> !crate::gates::shared_eligible(
                    #[trigger] report.selected@[i],
                )),
            (self.execute && forall|marked: Seq<Package>|
                #[trigger] resolved_plan_ok(plan.packages@, marked, *self, plan.excluded@)
                    ==> select_spec(marked).len() > 0 && gates_fatal_spec(
                    select_spec(marked),
                    *repo,
                    *index,
                    *limits,
                )) ==> (r matches Err(e) && e.code_spec() == 101 && e.error_spec() is None),
    {
        let ghost orig = plan.packages@;
        let mut pkgs = plan.packages;
        let excluded = plan.excluded;
        let ghost excluded_view = excluded@;
        let n = pkgs.len();
        let mut i: usize = 0;
        while i < n
            invariant
                i <= n,
                n == pkgs@.len(),
                n == orig.len(),
                forall|j: int| i <= j < n ==> pkgs@[j] == orig[j],
                forall|j: int|
                    0 <= j < i ==> (#[trigger] pkgs@[j]).name@ == orig[j].name@ && pkgs@[j].config
                        == orig[j].config,
                self.level_or_version matches Some(TargetVersion::Relative(l)) ==> forall|j: int|
                    0 <= j < n ==> bumpable((#[trigger] orig[j]).initial_version),
                self.level_or_version matches Some(TargetVersion::Relative(l)) ==> forall|j: int|
                    0 <= j < i ==> ((#[trigger] pkgs@[j]).planned_version matches Some(v)
                        ==> v.pre is None && version_le(pkgs@[j].initial_version, v)),
                forall|j: int| 0 <= j < i ==> stage1_ok(#[trigger] orig[j], pkgs@[j], *self),
            decreases n - i,
        {
            match &self.prev_tag_name {
                Some(tag) => {
                    let p = &mut pkgs[i];
                    p.set_prior_tag(tag.clone());
                },
                None => {},
            }
            match &self.level_or_version {
                Some(target) => {
                    let p = &mut pkgs[i];
                    p.bump(target, self.metadata.as_ref());
                },
                None => {},
            }
            proof {
                assert(stage1_ok(orig[i as int], pkgs@[i as int], *self));
            }
            i = i + 1;
        }
        let ghost stage1 = pkgs@;
        mark_excluded(&mut pkgs, &excluded);
        let ghost marked = pkgs@;
        let selected = select_packages(pkgs);
        proof {
            assert forall|j: int|
                0 <= j < orig.len() implies resolved_ok(
                #[trigger] orig[j],
                marked[j],
                *self,
                excluded_view,
            ) by {
                assert(stage1_ok(orig[j], stage1[j], *self));
                assert(excluded_mark_ok(stage1[j], marked[j], excluded_view));
                assert(stage1[j].name@ == orig[j].name@);
            };
            assert(resolved_plan_ok(orig, marked, *self, excluded_view));
            assert(select_spec(marked) == selected@);
        }
        proof {
            if forall|k: int|
                0 <= k < orig.len() ==> in_strings(excluded_view, (#[trigger] orig[k]).name@) {
                assert forall|j: int|
                    0 <= j < marked.len() implies !(#[trigger] marked[j]).config.release by {
                    assert(excluded_mark_ok(stage1[j], marked[j], excluded_view));
                    assert(stage1[j].name@ == orig[j].name@);
                    assert(in_strings(excluded_view, stage1[j].name@));
                };
                crate::plan::lemma_select_spec_empty(marked);
                assert(selected@.len() == 0);
            }
            if self.level_or_version matches Some(TargetVersion::Relative(l)) {
                assert forall|j: int|
                    0 <= j < selected@.len() implies ((#[trigger] selected@[j]).planned_version matches Some(
                    v,
                ) ==> v.pre is None && version_le(selected@[j].initial_version, v)) by {
                    crate::plan::lemma_select_spec_membership(marked, j);
                    let i = choose|i: int| 0 <= i < marked.len() && marked[i] == selected@[j];
                    assert(excluded_mark_ok(stage1[i], marked[i], excluded_view));
                }
            }
        }
        if selected.len() == 0 {
            return Err(ProcessError::silent(2));
        }
        let dry_run = !self.execute;
        let failed = match run_gates(&selected, repo, index, limits, dry_run) {
            Ok(f) => f,
            Err(e) => {
                return Err(e);
            },
        };
        let shared = match find_shared_versions(&selected) {
            Ok(s) => s,
            Err(e) => {
                return Err(ProcessError::message(e));
            },
        };
        match confirm(self.no_confirm, dry_run, confirmed) {
            Ok(()) => {},
            Err(e) => {
                return Err(e);
            },
        }
        let actions = match release_script(&selected, ws, &shared, date, dry_run) {
            Ok(a) => a,
            Err(e) => {
                return Err(e);
            },
        };
        Ok(
            ReleaseReport {
                selected,
                actions,
                shared_version: shared,
                failed,
                dry_run,
            },
        )
    }
}

} // verus!
