use cargo_release::error::FatalError;
use cargo_release::gates::IndexSnapshot;
use cargo_release::gates::RateLimit;
use cargo_release::gates::RepoSnapshot;
use cargo_release::gates::detect_double_publish;
use cargo_release::gates::find_shared_versions;
use cargo_release::gates::verify_monotonically_increasing;
use cargo_release::gates::verify_rate_limit;
use cargo_release::gates::verify_tags_missing;
use cargo_release::plan::Dependent;
use cargo_release::plan::DependencyPolicy;
use cargo_release::plan::Package;
use cargo_release::plan::PackageConfig;
use cargo_release::plan::ReqOp;
use cargo_release::plan::VersionReq;
use cargo_release::plan::req_matches_exec;
use cargo_release::plan::upgrade_requirement;
use cargo_release::version::Version;

fn plain(major: u64, minor: u64, patch: u64) -> Version {
    Version { major, minor, patch, pre: None, build: String::new() }
}

fn config() -> PackageConfig {
    PackageConfig {
        release: true,
        publish: true,
        registry: None,
        pre_release_commit_message: String::from("release {{crate_name}} {{version}}"),
        post_release_commit_message: String::from("start next iteration {{next_version}}"),
        pre_release_replacements: Vec::new(),
        post_release_replacements: Vec::new(),
        pre_release_hook: None,
        sign_commit: false,
        consolidate_commits: false,
        shared_version: false,
        dependent_version: DependencyPolicy::Upgrade,
    }
}

fn package(name: &str, initial: Version, planned: Option<Version>) -> Package {
    Package {
        name: String::from(name),
        manifest_path: format!("{name}/Cargo.toml"),
        package_root: String::from(name),
        config: config(),
        initial_version: initial,
        planned_version: planned,
        post_version: None,
        prior_tag: None,
        planned_tag: None,
        dependents: Vec::new(),
    }
}

fn repo() -> RepoSnapshot {
    RepoSnapshot {
        tree_clean: true,
        existing_tags: Vec::new(),
        branch_ok: true,
        behind_upstream: false,
    }
}

#[test]
fn monotonic_gate_passes_on_increase() {
    let pkgs = vec![
        package("a", plain(1, 0, 0), Some(plain(1, 0, 1))),
        package("b", plain(2, 3, 4), None),
    ];
    assert!(verify_monotonically_increasing(&pkgs));
}

#[test]
fn monotonic_gate_fails_on_downgrade() {
    let pkgs = vec![package("a", plain(1, 0, 1), Some(plain(1, 0, 0)))];
    assert!(!verify_monotonically_increasing(&pkgs));
}

#[test]
fn monotonic_gate_treats_prerelease_as_lower() {
    let pre = Version::new(1, 0, 0, "alpha.1", "").unwrap();
    let pkgs = vec![package("a", plain(1, 0, 0), Some(pre))];
    assert!(!verify_monotonically_increasing(&pkgs));
}

#[test]
fn tags_missing_gate() {
    let mut p = package("a", plain(1, 0, 0), Some(plain(1, 1, 0)));
    p.planned_tag = Some(String::from("v1.1.0"));
    let pkgs = vec![p];
    let mut r = repo();
    assert!(verify_tags_missing(&pkgs, &r));
    r.existing_tags.push(String::from("v1.1.0"));
    assert!(!verify_tags_missing(&pkgs, &r));
}

#[test]
fn double_publish_detected_from_index() {
    let pkgs = vec![package("widget", plain(1, 2, 0), Some(plain(1, 2, 0)))];
    let idx = IndexSnapshot {
        published: vec![(String::from("widget"), String::from("1.2.0"))],
        known_crates: vec![String::from("widget")],
    };
    assert!(detect_double_publish(&pkgs, &idx));
    let idx2 = IndexSnapshot {
        published: vec![(String::from("widget"), String::from("1.1.0"))],
        known_crates: vec![String::from("widget")],
    };
    assert!(!detect_double_publish(&pkgs, &idx2));
}

#[test]
fn rate_limit_counts_new_and_existing() {
    let pkgs = vec![
        package("known", plain(1, 0, 0), Some(plain(1, 0, 1))),
        package("brand_new", plain(0, 1, 0), Some(plain(0, 1, 1))),
    ];
    let idx = IndexSnapshot {
        published: Vec::new(),
        known_crates: vec![String::from("known")],
    };
    assert!(verify_rate_limit(&pkgs, &idx, &RateLimit { new_packages: 1, existing_packages: 1 }));
    assert!(!verify_rate_limit(&pkgs, &idx, &RateLimit { new_packages: 0, existing_packages: 30 }));
    assert!(!verify_rate_limit(&pkgs, &idx, &RateLimit { new_packages: 5, existing_packages: 0 }));
}

#[test]
fn shared_version_comes_from_first_eligible() {
    let mut a = package("a", plain(1, 0, 0), Some(plain(1, 1, 0)));
    a.config.shared_version = true;
    let mut b = package("b", plain(1, 0, 0), Some(plain(1, 1, 0)));
    b.config.shared_version = true;
    let c = package("c", plain(9, 9, 9), Some(plain(10, 0, 0)));
    let pkgs = vec![a, b, c];
    match find_shared_versions(&pkgs) {
        Ok(Some(v)) => assert_eq!(v.bare_version_string(), "1.1.0"),
        _ => panic!("expected a shared version"),
    }
}

#[test]
fn inconsistent_shared_versions_are_an_error() {
    let mut a = package("a", plain(1, 0, 0), Some(plain(1, 1, 0)));
    a.config.shared_version = true;
    let mut b = package("b", plain(1, 0, 0), Some(plain(2, 0, 0)));
    b.config.shared_version = true;
    let pkgs = vec![a, b];
    assert!(matches!(find_shared_versions(&pkgs), Err(FatalError::InvalidWorkspaceConfig)));
}

#[test]
fn no_eligible_packages_means_no_shared_version() {
    let pkgs = vec![package("a", plain(1, 0, 0), Some(plain(1, 1, 0)))];
    assert!(matches!(find_shared_versions(&pkgs), Ok(None)));
}

fn req(op: ReqOp, major: u64, minor: u64, patch: u64, text: &str) -> VersionReq {
    VersionReq { op, major, minor, patch, text: String::from(text) }
}

#[test]
fn requirement_matching_follows_caret_rules() {
    let caret = req(ReqOp::Caret, 1, 2, 3, "^1.2.3");
    assert!(req_matches_exec(&caret, &plain(1, 2, 3)));
    assert!(req_matches_exec(&caret, &plain(1, 9, 0)));
    assert!(!req_matches_exec(&caret, &plain(2, 0, 0)));
    assert!(!req_matches_exec(&caret, &plain(1, 2, 2)));
    let zero = req(ReqOp::Caret, 0, 2, 3, "^0.2.3");
    assert!(req_matches_exec(&zero, &plain(0, 2, 9)));
    assert!(!req_matches_exec(&zero, &plain(0, 3, 0)));
    let exact = req(ReqOp::Exact, 1, 2, 3, "=1.2.3");
    assert!(req_matches_exec(&exact, &plain(1, 2, 3)));
    assert!(!req_matches_exec(&exact, &plain(1, 2, 4)));
    // prerelease versions never satisfy a plain requirement
    let pre = Version::new(1, 2, 3, "alpha.1", "").unwrap();
    assert!(!req_matches_exec(&caret, &pre));
}

#[test]
fn upgrade_requirement_rewrites_or_reports() {
    let caret = req(ReqOp::Caret, 1, 2, 3, "^1.2.3");
    match upgrade_requirement(&caret, &plain(1, 3, 0)) {
        Ok(Some(s)) => assert_eq!(s, "^1.3.0"),
        _ => panic!("expected a rewritten requirement"),
    }
    // already referencing the version: nothing to edit
    assert!(matches!(upgrade_requirement(&caret, &plain(1, 2, 3)), Ok(None)));
    let exact = req(ReqOp::Exact, 1, 2, 3, "=1.2.3");
    match upgrade_requirement(&exact, &plain(2, 0, 0)) {
        Ok(Some(s)) => assert_eq!(s, "=2.0.0"),
        _ => panic!("expected a rewritten requirement"),
    }
    let other = req(ReqOp::Other, 0, 0, 0, ">=1, <2");
    match upgrade_requirement(&other, &plain(1, 3, 0)) {
        Err(FatalError::UnsupportedVersionReq(t)) => assert_eq!(t, ">=1, <2"),
        _ => panic!("expected UnsupportedVersionReq"),
    }
}

#[test]
fn dependent_is_used_by_the_plan() {
    // a dependent record round-trips through the plan data model
    let d = Dependent {
        manifest_path: String::from("b/Cargo.toml"),
        req: req(ReqOp::Caret, 1, 0, 0, "^1.0.0"),
    };
    assert_eq!(d.manifest_path, "b/Cargo.toml");
    assert!(matches!(d.req.op, ReqOp::Caret));
}
