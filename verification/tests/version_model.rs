use cargo_release::error::FatalError;
use cargo_release::version::BumpLevel;
use cargo_release::version::Version;
use cargo_release::version::bump_version;
use cargo_release::version::parse_level;
use cargo_release::version::parse_prerelease;
use cargo_release::version::version_le_exec;
use cargo_release::version::version_lt_exec;

fn plain(major: u64, minor: u64, patch: u64) -> Version {
    Version { major, minor, patch, pre: None, build: String::new() }
}

#[test]
fn parse_level_keywords() {
    assert!(matches!(parse_level("major"), Ok(BumpLevel::Major)));
    assert!(matches!(parse_level("minor"), Ok(BumpLevel::Minor)));
    assert!(matches!(parse_level("patch"), Ok(BumpLevel::Patch)));
}

#[test]
fn parse_level_rejects_unknown() {
    match parse_level("beta") {
        Err(FatalError::InvalidReleaseLevel(s)) => assert_eq!(s, "beta"),
        _ => panic!("expected InvalidReleaseLevel"),
    }
}

#[test]
fn parse_prerelease_supported_grammar() {
    assert!(matches!(parse_prerelease(""), Ok(None)));
    match parse_prerelease("pre") {
        Ok(Some(p)) => {
            assert_eq!(p.id, "pre");
            assert_eq!(p.num, None);
        },
        _ => panic!("expected a bare id"),
    }
    match parse_prerelease("alpha.1") {
        Ok(Some(p)) => {
            assert_eq!(p.id, "alpha");
            assert_eq!(p.num, Some(1));
        },
        _ => panic!("expected a numbered id"),
    }
    match parse_prerelease("dev") {
        Ok(Some(p)) => assert_eq!(p.id, "dev"),
        _ => panic!("expected a bare id"),
    }
}

#[test]
fn parse_prerelease_rejects_unsupported_schemes() {
    for bad in ["Alpha", "alpha.01", "alpha.1.2", "alpha.", ".1", "alpha-1", "1"] {
        assert!(
            matches!(parse_prerelease(bad), Err(FatalError::UnsupportedPrereleaseVersionScheme)),
            "{bad} should be rejected"
        );
    }
    // a numeral too large for the version model
    assert!(matches!(
        parse_prerelease("alpha.18446744073709551616"),
        Err(FatalError::UnsupportedPrereleaseVersionScheme)
    ));
    assert!(matches!(parse_prerelease("alpha.18446744073709551615"), Ok(Some(_))));
}

#[test]
fn version_new_and_strings() {
    let v = Version::new(1, 2, 3, "alpha.1", "build5").unwrap();
    assert_eq!(v.bare_version_string(), "1.2.3-alpha.1");
    assert_eq!(v.full_version_string(), "1.2.3-alpha.1+build5");
    assert!(v.is_prerelease());
    let w = Version::new(10, 0, 207, "", "").unwrap();
    assert_eq!(w.bare_version_string(), "10.0.207");
    assert_eq!(w.full_version_string(), "10.0.207");
    assert!(!w.is_prerelease());
}

#[test]
fn version_ordering_is_semantic() {
    let rel = Version::new(1, 2, 3, "", "").unwrap();
    let alpha1 = Version::new(1, 2, 3, "alpha.1", "").unwrap();
    let alpha2 = Version::new(1, 2, 3, "alpha.2", "").unwrap();
    let alpha_bare = Version::new(1, 2, 3, "alpha", "").unwrap();
    let dev = Version::new(1, 2, 3, "dev", "").unwrap();
    let next = Version::new(1, 2, 4, "", "").unwrap();

    // a prerelease precedes its release
    assert!(version_lt_exec(&alpha1, &rel));
    // numbered prereleases order by number
    assert!(version_lt_exec(&alpha1, &alpha2));
    // a bare id precedes its numbered forms
    assert!(version_lt_exec(&alpha_bare, &alpha1));
    // ids order lexically
    assert!(version_lt_exec(&alpha2, &dev));
    // the triple dominates
    assert!(version_lt_exec(&rel, &next));
    assert!(version_lt_exec(&alpha1, &next));
    // build metadata is ignored
    let with_build = Version::new(1, 2, 3, "", "b1").unwrap();
    assert!(version_le_exec(&rel, &with_build));
    assert!(version_le_exec(&with_build, &rel));
}

#[test]
fn bump_levels() {
    let v = plain(1, 2, 3);
    let major = bump_version(&v, BumpLevel::Major, None);
    assert_eq!(major.bare_version_string(), "2.0.0");
    let minor = bump_version(&v, BumpLevel::Minor, None);
    assert_eq!(minor.bare_version_string(), "1.3.0");
    let patch = bump_version(&v, BumpLevel::Patch, None);
    assert_eq!(patch.bare_version_string(), "1.2.4");
}

#[test]
fn bump_patch_clears_prerelease_without_moving() {
    let v = Version::new(1, 2, 3, "alpha.1", "").unwrap();
    let patch = bump_version(&v, BumpLevel::Patch, None);
    assert_eq!(patch.bare_version_string(), "1.2.3");
}

#[test]
fn bump_attaches_metadata() {
    let v = plain(0, 4, 9);
    let meta = String::from("nightly");
    let b = bump_version(&v, BumpLevel::Minor, Some(&meta));
    assert_eq!(b.full_version_string(), "0.5.0+nightly");
}
