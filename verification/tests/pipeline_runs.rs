use cargo_release::gates::IndexSnapshot;
use cargo_release::gates::RateLimit;
use cargo_release::gates::RepoSnapshot;
use cargo_release::pipeline::Action;
use cargo_release::pipeline::Phase;
use cargo_release::pipeline::ReleaseStep;
use cargo_release::pipeline::confirm;
use cargo_release::pipeline::finish;
use cargo_release::pipeline::hook_env;
use cargo_release::pipeline::pre_release_template;
use cargo_release::plan::Dependent;
use cargo_release::plan::DependencyPolicy;
use cargo_release::plan::Package;
use cargo_release::plan::PackageConfig;
use cargo_release::plan::ReleasePlan;
use cargo_release::plan::ReqOp;
use cargo_release::plan::VersionReq;
use cargo_release::plan::WorkspaceConfig;
use cargo_release::version::BumpLevel;
use cargo_release::version::TargetVersion;
use cargo_release::version::Version;

fn plain(major: u64, minor: u64, patch: u64) -> Version {
    Version { major, minor, patch, pre: None, build: String::new() }
}

fn config() -> PackageConfig {
    PackageConfig {
        release: true,
        publish: true,
        registry: None,
        pre_release_commit_message: String::from("release {{crate_name}} {{version}}"),
        post_release_commit_message: String::from("next iteration {{next_version}}"),
        pre_release_replacements: Vec::new(),
        post_release_replacements: Vec::new(),
        pre_release_hook: None,
        sign_commit: false,
        consolidate_commits: false,
        shared_version: false,
        dependent_version: DependencyPolicy::Upgrade,
    }
}

fn package(name: &str, initial: Version) -> Package {
    Package {
        name: String::from(name),
        manifest_path: format!("{name}/Cargo.toml"),
        package_root: String::from(name),
        config: config(),
        initial_version: initial,
        planned_version: None,
        post_version: None,
        prior_tag: None,
        planned_tag: None,
        dependents: Vec::new(),
    }
}

fn workspace() -> WorkspaceConfig {
    WorkspaceConfig {
        workspace_root: String::from("."),
        pre_release_commit_message: String::from("release {{version}}"),
        post_release_commit_message: String::from("next iteration {{next_version}}"),
        sign_commit: false,
    }
}

fn clean_repo() -> RepoSnapshot {
    RepoSnapshot {
        tree_clean: true,
        existing_tags: Vec::new(),
        branch_ok: true,
        behind_upstream: false,
    }
}

fn empty_index() -> IndexSnapshot {
    IndexSnapshot { published: Vec::new(), known_crates: Vec::new() }
}

fn limits() -> RateLimit {
    RateLimit { new_packages: 5, existing_packages: 30 }
}

fn step(execute: bool) -> ReleaseStep {
    ReleaseStep {
        level_or_version: Some(TargetVersion::Relative(BumpLevel::Patch)),
        metadata: None,
        execute,
        no_confirm: true,
        prev_tag_name: None,
    }
}

fn caret_dependent(manifest: &str, major: u64, minor: u64, patch: u64) -> Dependent {
    Dependent {
        manifest_path: String::from(manifest),
        req: VersionReq {
            op: ReqOp::Caret,
            major,
            minor,
            patch,
            text: format!("^{major}.{minor}.{patch}"),
        },
    }
}

/// Three packages where C depends on B depends on A.
fn chain_plan() -> ReleasePlan {
    let mut a = package("a", plain(1, 0, 0));
    a.dependents.push(caret_dependent("b/Cargo.toml", 1, 0, 0));
    let mut b = package("b", plain(2, 1, 0));
    b.dependents.push(caret_dependent("c/Cargo.toml", 2, 1, 0));
    let c = package("c", plain(0, 3, 0));
    ReleasePlan { packages: vec![a, b, c], excluded: Vec::new() }
}

fn commit_messages(actions: &[Action]) -> Vec<String> {
    actions
        .iter()
        .filter_map(|a| match a {
            Action::Commit { message, .. } => Some(message.clone()),
            _ => None,
        })
        .collect()
}

#[test]
fn patch_chain_bumps_all_and_updates_dependents() {
    let date = String::from("2026-10-11");
    let report = step(false)
        .run(chain_plan(), &workspace(), &clean_repo(), &empty_index(), &limits(), &date, false)
        .expect("the run must succeed");
    assert!(report.dry_run);
    assert!(!report.failed);
    assert_eq!(report.selected.len(), 3);
    assert_eq!(
        report.selected[0].planned_version.as_ref().unwrap().bare_version_string(),
        "1.0.1"
    );
    assert_eq!(
        report.selected[1].planned_version.as_ref().unwrap().bare_version_string(),
        "2.1.1"
    );
    assert_eq!(
        report.selected[2].planned_version.as_ref().unwrap().bare_version_string(),
        "0.3.1"
    );
    // dependent requirements reference the new versions
    let mut updates: Vec<(String, String, String)> = Vec::new();
    for a in report.actions.iter() {
        if let Action::UpdateDependent { manifest_path, dep_name, req } = a {
            updates.push((manifest_path.clone(), dep_name.clone(), req.clone()));
        }
    }
    assert_eq!(updates.len(), 2);
    assert_eq!(updates[0], (String::from("b/Cargo.toml"), String::from("a"), String::from("^1.0.1")));
    assert_eq!(updates[1], (String::from("c/Cargo.toml"), String::from("b"), String::from("^2.1.1")));
    // exactly three pre-release commits when nothing consolidates
    assert_eq!(commit_messages(&report.actions).len(), 3);
    // ... and one publish per package plus the final push
    let publishes = report.actions.iter().filter(|a| matches!(a, Action::Publish { .. })).count();
    assert_eq!(publishes, 3);
    assert!(matches!(report.actions.last(), Some(Action::Push)));
}

#[test]
fn consolidated_chain_produces_one_commit_per_phase() {
    let mut plan = chain_plan();
    for p in plan.packages.iter_mut() {
        p.config.consolidate_commits = true;
    }
    let date = String::from("2026-10-11");
    let report = step(false)
        .run(plan, &workspace(), &clean_repo(), &empty_index(), &limits(), &date, false)
        .expect("the run must succeed");
    let msgs = commit_messages(&report.actions);
    assert_eq!(msgs.len(), 1);
    // the workspace template renders with the shared version unbound: empty
    assert_eq!(msgs[0], "release ");
}

#[test]
fn consolidation_mixes_per_package_and_shared_commits() {
    let mut plan = chain_plan();
    plan.packages[0].config.consolidate_commits = true;
    let date = String::from("2026-10-11");
    let report = step(false)
        .run(plan, &workspace(), &clean_repo(), &empty_index(), &limits(), &date, false)
        .expect("the run must succeed");
    // two per-package commits plus one shared commit
    assert_eq!(commit_messages(&report.actions).len(), 3);
}

#[test]
fn post_versions_produce_their_own_commits() {
    let mut plan = chain_plan();
    plan.packages[0].post_version = Some(Version::new(1, 0, 2, "alpha", "").unwrap());
    let date = String::from("2026-10-11");
    let report = step(false)
        .run(plan, &workspace(), &clean_repo(), &empty_index(), &limits(), &date, false)
        .expect("the run must succeed");
    let msgs = commit_messages(&report.actions);
    // three pre-release commits plus one post-release commit
    assert_eq!(msgs.len(), 4);
    assert_eq!(msgs[3], "next iteration 1.0.2-alpha");
}

#[test]
fn double_publish_in_execute_mode_exits_101_with_no_script() {
    let mut plan = ReleasePlan { packages: Vec::new(), excluded: Vec::new() };
    let mut p = package("widget", plain(1, 2, 0));
    p.planned_version = None;
    plan.packages.push(p);
    let index = IndexSnapshot {
        published: vec![(String::from("widget"), String::from("1.2.0"))],
        known_crates: vec![String::from("widget")],
    };
    let date = String::from("2026-10-11");
    let step = ReleaseStep {
        level_or_version: Some(TargetVersion::Absolute(plain(1, 2, 0))),
        metadata: None,
        execute: true,
        no_confirm: true,
        prev_tag_name: None,
    };
    let err = step
        .run(plan, &workspace(), &clean_repo(), &index, &limits(), &date, true)
        .expect_err("the double publication must abort");
    assert_eq!(err.code(), 101);
    assert!(err.into_error().is_none());
}

#[test]
fn double_publish_in_dry_run_only_marks_failed() {
    let mut plan = ReleasePlan { packages: Vec::new(), excluded: Vec::new() };
    plan.packages.push(package("widget", plain(1, 2, 0)));
    let index = IndexSnapshot {
        published: vec![(String::from("widget"), String::from("1.2.0"))],
        known_crates: vec![String::from("widget")],
    };
    let date = String::from("2026-10-11");
    let step = ReleaseStep {
        level_or_version: None,
        metadata: None,
        execute: false,
        no_confirm: true,
        prev_tag_name: None,
    };
    let report = step
        .run(plan, &workspace(), &clean_repo(), &index, &limits(), &date, false)
        .expect("dry-run reports instead of aborting");
    assert!(report.failed);
    // the summary then reports the failure as a non-zero exit
    let summary = finish(report.failed, report.dry_run);
    assert_eq!(summary.expect_err("failed must surface").code(), 101);
}

#[test]
fn all_packages_excluded_exits_2_with_zero_mutations() {
    let mut plan = chain_plan();
    plan.excluded = vec![String::from("a"), String::from("b"), String::from("c")];
    let date = String::from("2026-10-11");
    let err = step(true)
        .run(plan, &workspace(), &clean_repo(), &empty_index(), &limits(), &date, true)
        .expect_err("an empty selection must stop the run");
    assert_eq!(err.code(), 2);
    assert!(err.into_error().is_none());
}

#[test]
fn declined_confirmation_stops_the_run() {
    assert!(confirm(false, false, false).is_err());
    assert_eq!(confirm(false, false, false).expect_err("declined").code(), 0);
    assert!(confirm(false, false, true).is_ok());
    assert!(confirm(true, false, false).is_ok());
    // dry-run always skips confirmation
    assert!(confirm(false, true, false).is_ok());
}

#[test]
fn finish_reports_success_when_nothing_failed() {
    assert!(finish(false, true).is_ok());
    assert!(finish(false, false).is_ok());
}

#[test]
fn hook_environment_contract() {
    let mut p = package("widget", plain(1, 2, 0));
    p.planned_version = Some(Version::new(1, 3, 0, "", "m7").unwrap());
    let root = String::from("/ws");
    let env = hook_env(&p, &root, true);
    let expected = [
        ("PREV_VERSION", "1.2.0"),
        ("PREV_METADATA", ""),
        ("NEW_VERSION", "1.3.0"),
        ("NEW_METADATA", "m7"),
        ("DRY_RUN", "true"),
        ("CRATE_NAME", "widget"),
        ("WORKSPACE_ROOT", "/ws"),
        ("CRATE_ROOT", "widget"),
    ];
    assert_eq!(env.len(), expected.len());
    for (pair, (k, v)) in env.iter().zip(expected.iter()) {
        assert_eq!(pair.0, *k);
        assert_eq!(pair.1, *v);
    }
    let env = hook_env(&p, &root, false);
    assert_eq!(env[4].1, "false");
}

#[test]
fn hook_runs_even_in_dry_run() {
    let mut plan = chain_plan();
    plan.packages[0].config.pre_release_hook =
        Some(vec![String::from("scripts/preflight.sh"), String::from("{{version}}")]);
    let date = String::from("2026-10-11");
    let report = step(false)
        .run(plan, &workspace(), &clean_repo(), &empty_index(), &limits(), &date, false)
        .expect("the run must succeed");
    let hook = report
        .actions
        .iter()
        .find_map(|a| match a {
            Action::RunHook { package, args, env } => Some((*package, args.clone(), env.clone())),
            _ => None,
        })
        .expect("the hook must be scheduled even in dry-run");
    assert_eq!(hook.0, 0);
    assert_eq!(hook.1, vec![String::from("scripts/preflight.sh"), String::from("1.0.1")]);
    assert_eq!(hook.2[4], (String::from("DRY_RUN"), String::from("true")));
}

#[test]
fn replacements_scheduled_per_phase() {
    let mut plan = chain_plan();
    plan.packages[1].config.pre_release_replacements.push(cargo_release::replace::Replace {
        file: Some(String::from("README.md")),
        search: Some(String::from("x")),
        replace: Some(String::from("y")),
        min: 0,
        max: None,
        prerelease: false,
    });
    let date = String::from("2026-10-11");
    let report = step(false)
        .run(plan, &workspace(), &clean_repo(), &empty_index(), &limits(), &date, false)
        .expect("the run must succeed");
    let slots: Vec<(usize, Phase)> = report
        .actions
        .iter()
        .filter_map(|a| match a {
            Action::Replacements { package, phase } => Some((*package, *phase)),
            _ => None,
        })
        .collect();
    assert_eq!(slots, vec![(1, Phase::Pre)]);
}

#[test]
fn pre_release_template_binds_versions() {
    let mut p = package("widget", plain(1, 2, 0));
    p.planned_version = Some(plain(1, 3, 0));
    p.planned_tag = Some(String::from("v1.3.0"));
    let date = String::from("2026-10-11");
    let t = pre_release_template(&p, &date);
    let out = t.render("{{crate_name}} {{prev_version}} -> {{version}} at {{tag_name}} on {{date}}");
    assert_eq!(out, "widget 1.2.0 -> 1.3.0 at v1.3.0 on 2026-10-11");
}

#[test]
fn fix_policy_conflict_aborts_the_script() {
    let mut plan = chain_plan();
    plan.packages[0].config.dependent_version = DependencyPolicy::Fix;
    // the patch bump moves a to 1.0.1 while b pins ^1.0.0: compatible
    let date = String::from("2026-10-11");
    assert!(step(false)
        .run(plan, &workspace(), &clean_repo(), &empty_index(), &limits(), &date, false)
        .is_ok());
    // an exact pin conflicts with any move
    let mut plan = chain_plan();
    plan.packages[0].config.dependent_version = DependencyPolicy::Fix;
    plan.packages[0].dependents[0].req.op = ReqOp::Exact;
    let err = step(false)
        .run(plan, &workspace(), &clean_repo(), &empty_index(), &limits(), &date, false)
        .expect_err("the pinned dependent must conflict");
    assert_eq!(err.code(), 101);
    assert!(matches!(
        err.into_error(),
        Some(cargo_release::error::FatalError::DependencyVersionConflict)
    ));
}
