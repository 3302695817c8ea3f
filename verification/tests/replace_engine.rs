use cargo_release::error::FatalError;
use cargo_release::replace::Replace;
use cargo_release::replace::RuleOutcome;
use cargo_release::replace::apply_replace;
use cargo_release::replace::check_occurrences;
use cargo_release::replace::do_file_replacements;
use cargo_release::template::Template;

fn rule(search: &str, replace: &str, min: usize, max: Option<usize>) -> Replace {
    Replace {
        file: Some(String::from("CHANGELOG.md")),
        search: Some(String::from(search)),
        replace: Some(String::from(replace)),
        min,
        max,
        prerelease: false,
    }
}

fn version_template() -> Template {
    let mut t = Template::default();
    t.version = Some(String::from("1.3.0"));
    t
}

#[test]
fn occurrence_bounds_exact() {
    let pat = String::from("p");
    // min <= k <= max succeeds
    assert!(check_occurrences(&pat, 2, 1, Some(3)).is_ok());
    assert!(check_occurrences(&pat, 1, 1, Some(1)).is_ok());
    // k < min is the minimum error
    match check_occurrences(&pat, 0, 1, None) {
        Err(FatalError::ReplacerMinError(p, req, actual)) => {
            assert_eq!(p, "p");
            assert_eq!(req, 1);
            assert_eq!(actual, 0);
        },
        _ => panic!("expected ReplacerMinError"),
    }
    // k > max is the maximum error
    match check_occurrences(&pat, 5, 1, Some(3)) {
        Err(FatalError::ReplacerMaxError(p, req, actual)) => {
            assert_eq!(p, "p");
            assert_eq!(req, 3);
            assert_eq!(actual, 5);
        },
        _ => panic!("expected ReplacerMaxError"),
    }
    // max unset: any k >= min succeeds
    assert!(check_occurrences(&pat, 100, 1, None).is_ok());
}

#[test]
fn incomplete_rule_is_a_config_error() {
    let mut r = rule("x", "y", 1, None);
    r.search = None;
    let contents = String::from("x");
    match apply_replace(&r, &version_template(), Some(&contents), false, true) {
        Err(FatalError::ReplacerConfigError) => {},
        _ => panic!("expected ReplacerConfigError"),
    }
}

#[test]
fn missing_file_is_file_not_found() {
    let r = rule("x", "y", 1, None);
    match apply_replace(&r, &version_template(), None, false, true) {
        Err(FatalError::FileNotFound(f)) => assert_eq!(f, "CHANGELOG.md"),
        _ => panic!("expected FileNotFound"),
    }
}

#[test]
fn bad_pattern_is_a_regex_error() {
    let r = rule("[", "y", 1, None);
    let contents = String::from("anything");
    match apply_replace(&r, &version_template(), Some(&contents), false, true) {
        Err(FatalError::ReplacerRegexError(_)) => {},
        _ => panic!("expected ReplacerRegexError"),
    }
}

#[test]
fn prerelease_only_rule_is_skipped_outside_prereleases() {
    let mut r = rule("x", "y", 1, None);
    r.prerelease = true;
    let contents = String::from("no match here");
    match apply_replace(&r, &version_template(), Some(&contents), false, true) {
        Ok(RuleOutcome::Skipped) => {},
        _ => panic!("expected the rule to be skipped"),
    }
}

#[test]
fn replacement_rewrites_and_renders() {
    let r = rule("Unreleased", "v{{version}}", 1, None);
    let contents = String::from("## Unreleased\nolder: Unreleased");
    match apply_replace(&r, &version_template(), Some(&contents), false, false) {
        Ok(RuleOutcome::Applied { count, new_contents, write }) => {
            assert_eq!(count, 2);
            assert!(write);
            assert_eq!(new_contents, "## v1.3.0\nolder: v1.3.0");
        },
        _ => panic!("expected an applied outcome"),
    }
}

#[test]
fn bounds_checked_against_real_match_count() {
    // exactly two matches; requiring at least three fails
    let r = rule("ab", "c", 3, None);
    let contents = String::from("ab ab");
    match apply_replace(&r, &version_template(), Some(&contents), false, false) {
        Err(FatalError::ReplacerMinError(_, req, actual)) => {
            assert_eq!(req, 3);
            assert_eq!(actual, 2);
        },
        _ => panic!("expected ReplacerMinError"),
    }
    // allowing at most one also fails
    let r = rule("ab", "c", 1, Some(1));
    match apply_replace(&r, &version_template(), Some(&contents), false, false) {
        Err(FatalError::ReplacerMaxError(_, req, actual)) => {
            assert_eq!(req, 1);
            assert_eq!(actual, 2);
        },
        _ => panic!("expected ReplacerMaxError"),
    }
}

#[test]
fn dry_run_gives_the_same_signal_and_requests_no_write() {
    let r = rule("Unreleased", "v{{version}}", 1, None);
    let contents = String::from("## Unreleased");
    let dry = apply_replace(&r, &version_template(), Some(&contents), false, true);
    let wet = apply_replace(&r, &version_template(), Some(&contents), false, false);
    match (dry, wet) {
        (
            Ok(RuleOutcome::Applied { count: c1, new_contents: n1, write: w1 }),
            Ok(RuleOutcome::Applied { count: c2, new_contents: n2, write: w2 }),
        ) => {
            assert_eq!(c1, c2);
            assert_eq!(n1, n2);
            assert!(!w1);
            assert!(w2);
        },
        _ => panic!("expected both modes to succeed alike"),
    }
    // a failing rule fails identically in both modes
    let bad = rule("missing", "x", 1, None);
    let dry = apply_replace(&bad, &version_template(), Some(&contents), false, true);
    let wet = apply_replace(&bad, &version_template(), Some(&contents), false, false);
    assert!(matches!(dry, Err(FatalError::ReplacerMinError(_, _, _))));
    assert!(matches!(wet, Err(FatalError::ReplacerMinError(_, _, _))));
}

#[test]
fn batch_is_all_or_nothing() {
    let good = rule("a", "b", 1, None);
    let bad = rule("zzz", "x", 1, None);
    let rules = vec![good, bad];
    let contents = vec![Some(String::from("a")), Some(String::from("a"))];
    let t = version_template();
    match do_file_replacements(&rules, &t, &contents, false, false) {
        Err(FatalError::ReplacerMinError(p, _, _)) => assert_eq!(p, "zzz"),
        _ => panic!("the failing rule must abort the batch"),
    }
    let rules = vec![
        rule("a", "b", 1, None),
        rule("b", "c", 0, Some(9)),
    ];
    match do_file_replacements(&rules, &t, &contents, false, false) {
        Ok(outs) => assert_eq!(outs.len(), 2),
        _ => panic!("expected the batch to succeed"),
    }
}
