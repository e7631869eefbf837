use rustup_range::version_range;
use rustup_range::Error;

fn no_workspace() -> Vec<Option<String>> {
    Vec::new()
}

#[test]
fn full_range_counts_and_order() {
    let r = version_range("1.40..1.46", Some("2"), &no_workspace(), None).unwrap();
    assert_eq!(
        r,
        vec![
            "1.40".to_string(),
            "1.42".to_string(),
            "1.44".to_string(),
            "1.46".to_string()
        ]
    );
    let r = version_range("1.31..1.36", None, &no_workspace(), None).unwrap();
    assert_eq!(r.len(), 6);
    assert_eq!(r[0], "1.31");
    assert_eq!(r[5], "1.36");
    for k in 1..r.len() {
        assert!(r[k - 1] < r[k]);
    }
}

#[test]
fn step_not_hitting_end_stops_below_it() {
    let r = version_range("1.40..1.45", Some("2"), &no_workspace(), None).unwrap();
    assert_eq!(
        r,
        vec!["1.40".to_string(), "1.42".to_string(), "1.44".to_string()]
    );
}

#[test]
fn zero_step_fails() {
    let r = version_range("1.40..1.45", Some("0"), &no_workspace(), None);
    assert_eq!(r, Err(Error::StepZero));
}

#[test]
fn unparseable_step_fails() {
    let r = version_range("1.40..1.45", Some("x"), &no_workspace(), None);
    assert_eq!(r, Err(Error::StepParse));
    let r = version_range("1.40..1.45", Some("256"), &no_workspace(), None);
    assert_eq!(r, Err(Error::StepParse));
    let r = version_range("1.40..1.45", Some(""), &no_workspace(), None);
    assert_eq!(r, Err(Error::StepParse));
}

#[test]
fn major_version_must_be_one() {
    let r = version_range("2.40..2.45", None, &no_workspace(), None);
    assert_eq!(r, Err(Error::MajorNotOne));
    let r = version_range("0.40..1.45", None, &no_workspace(), None);
    assert_eq!(r, Err(Error::MajorNotOne));
    let r = version_range("1.40..2.45", None, &no_workspace(), None);
    assert_eq!(r, Err(Error::MajorNotOne));
}

#[test]
fn single_version_range() {
    let r = version_range("1.40..1.40", None, &no_workspace(), None).unwrap();
    assert_eq!(r, vec!["1.40".to_string()]);
}

#[test]
fn reversed_range_is_empty() {
    let r = version_range("1.45..1.40", None, &no_workspace(), None);
    assert_eq!(r, Err(Error::EmptyRange));
}

#[test]
fn open_end_resolves_via_stable() {
    let r = version_range("1.40..", None, &no_workspace(), Some(43)).unwrap();
    assert_eq!(
        r,
        vec![
            "1.40".to_string(),
            "1.41".to_string(),
            "1.42".to_string(),
            "1.43".to_string()
        ]
    );
}

#[test]
fn missing_separator_also_resolves_via_stable() {
    let r = version_range("1.40", None, &no_workspace(), Some(42)).unwrap();
    assert_eq!(
        r,
        vec!["1.40".to_string(), "1.41".to_string(), "1.42".to_string()]
    );
}

#[test]
fn empty_start_uses_workspace_consensus() {
    let members = vec![
        Some("1.42".to_string()),
        None,
        Some("1.42".to_string()),
    ];
    let r = version_range("..", None, &members, Some(44)).unwrap();
    assert_eq!(
        r,
        vec!["1.42".to_string(), "1.43".to_string(), "1.44".to_string()]
    );
}

#[test]
fn empty_start_with_explicit_end() {
    let members = vec![Some("1.42".to_string())];
    let r = version_range("..1.43", None, &members, None).unwrap();
    assert_eq!(r, vec!["1.42".to_string(), "1.43".to_string()]);
}

#[test]
fn differing_workspace_versions_are_ambiguous() {
    let members = vec![Some("1.42".to_string()), Some("1.43".to_string())];
    let r = version_range("..", None, &members, Some(44));
    assert_eq!(r, Err(Error::AmbiguousRustVersion));
}

#[test]
fn no_workspace_version_fails() {
    let members = vec![None, None];
    let r = version_range("..", None, &members, Some(44));
    assert_eq!(r, Err(Error::NoRustVersion));
    let r = version_range("..", None, &no_workspace(), Some(44));
    assert_eq!(r, Err(Error::NoRustVersion));
}

#[test]
fn malformed_start_fails_parse() {
    let r = version_range("x..1.40", None, &no_workspace(), None);
    assert_eq!(r, Err(Error::VersionParse));
    let r = version_range("1..1.40", None, &no_workspace(), None);
    assert_eq!(r, Err(Error::VersionParse));
}

#[test]
fn extra_separator_lands_in_end_text() {
    // Only the first ".." splits; "1.42..1.45..2" must parse "1.45..2" as a
    // version, which fails.
    let r = version_range("1.42..1.45..2", None, &no_workspace(), None);
    assert_eq!(r, Err(Error::VersionParse));
}

#[test]
fn patch_components_are_ignored_for_bounds() {
    let r = version_range("1.40.3..1.41.1", None, &no_workspace(), None).unwrap();
    assert_eq!(r, vec!["1.40".to_string(), "1.41".to_string()]);
}

#[test]
fn needs_stable_detection() {
    assert!(rustup_range::range::needs_stable("1.40.."));
    assert!(rustup_range::range::needs_stable("1.40"));
    assert!(rustup_range::range::needs_stable(".."));
    assert!(!rustup_range::range::needs_stable("1.40..1.45"));
    assert!(!rustup_range::range::needs_stable("1.40..."));
}
