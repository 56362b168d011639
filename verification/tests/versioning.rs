use dpcs::model::versioning::{normalize_major_minor, parse_version, versions_compatible};

#[test]
fn parses_semver_and_major_minor() {
    let full = parse_version("1.2.3-alpha.1+build.7").unwrap();
    assert_eq!(full.major, 1);
    assert_eq!(full.minor, 2);
    assert_eq!(full.patch, 3);
    assert_eq!(full.pre_release.as_deref(), Some("alpha.1"));
    assert_eq!(full.build.as_deref(), Some("build.7"));

    let short = parse_version("1.0").unwrap();
    assert_eq!(short.patch, 0);

    assert!(parse_version("1.0.0-draft").is_ok());
    assert!(parse_version("").is_err());
    assert!(parse_version("1").is_err());
    assert!(parse_version("01.0.0").is_err());
}

#[test]
fn compatibility_uses_major_minor() {
    assert!(versions_compatible("1.0.0-draft", "1.0.0"));
    assert!(versions_compatible("1.0.0", "1.0.5"));
    assert!(!versions_compatible("1.0.0", "2.0.0"));
}

#[test]
fn compatibility_is_reflexive_and_symmetric_on_examples() {
    for v in ["1.0.0", "2.3", "1.0.0-draft", "x"] {
        assert!(versions_compatible(v, v));
    }
    assert_eq!(versions_compatible("1.2.9", "1.2.0"), versions_compatible("1.2.0", "1.2.9"));
    assert_eq!(normalize_major_minor(" 1.2.3-draft "), "1.2");
}
