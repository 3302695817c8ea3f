use cargo_release::error::FatalError;
use cargo_release::error::ProcessError;
use cargo_release::plan::ExclusionNote;
use cargo_release::plan::exclusion_note;

#[test]
fn silent_carries_only_a_code() {
    let e = ProcessError::silent(2);
    assert_eq!(e.code(), 2);
    assert!(e.into_error().is_none());
}

#[test]
fn message_is_always_fatal_code_101() {
    let e = ProcessError::message(FatalError::GitBinError);
    assert_eq!(e.code(), 101);
    assert!(matches!(e.into_error(), Some(FatalError::GitBinError)));
}

#[test]
fn taxonomy_kinds_carry_their_diagnostics() {
    match FatalError::ReplacerMinError(String::from("pat"), 2, 1) {
        FatalError::ReplacerMinError(p, req, actual) => {
            assert_eq!((p.as_str(), req, actual), ("pat", 2, 1));
        },
        _ => unreachable!(),
    }
    match FatalError::PublishTimeoutError {
        FatalError::PublishTimeoutError => {},
        _ => unreachable!(),
    }
    match FatalError::VarError(String::from("HOME")) {
        FatalError::VarError(v) => assert_eq!(v, "HOME"),
        _ => unreachable!(),
    }
    match FatalError::IndexError(String::from("offline")) {
        FatalError::IndexError(m) => assert_eq!(m, "offline"),
        _ => unreachable!(),
    }
}

#[test]
fn excluded_packages_are_classified_not_mutated() {
    let tag = Some(String::from("v1.0.0"));
    assert_eq!(exclusion_note(&None, None), ExclusionNote::NoTag);
    assert_eq!(exclusion_note(&tag, None), ExclusionNote::TagMissing);
    assert_eq!(exclusion_note(&tag, Some((true, true))), ExclusionNote::ChangedFiles);
    assert_eq!(exclusion_note(&tag, Some((false, true))), ExclusionNote::LockChanged);
    assert_eq!(exclusion_note(&tag, Some((false, false))), ExclusionNote::NoChanges);
}
