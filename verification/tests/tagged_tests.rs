use simple_version::ParseError;
use simple_version::TaggedVersion;
use simple_version::VersionType;

#[test]
fn test_tagged_new() {
    let version = TaggedVersion::new(1, 2, 3);

    assert_eq!(version.major, 1);
    assert_eq!(version.minor, 2);
    assert_eq!(version.patch, 3);
    assert_eq!(version.version_type, VersionType::Release);
}

#[test]
fn test_tagged_qualifier_order() {
    let release = TaggedVersion::new(1, 0, 0).release();
    let beta = TaggedVersion::new(1, 0, 0).beta(1);
    let alpha = TaggedVersion::new(1, 0, 0).alpha(1);

    assert!(release > beta);
    assert!(beta > alpha);
    assert!(release > alpha);
}

#[test]
fn test_tagged_qualifier_order_ignores_numbers() {
    let release = TaggedVersion::new(1, 0, 0).release();
    let beta = TaggedVersion::new(1, 0, 0).beta(65535);
    let alpha = TaggedVersion::new(1, 0, 0).alpha(65535);

    assert!(release > beta);
    assert!(beta > alpha);
}

#[test]
fn test_tagged_same_kind_order() {
    assert!(TaggedVersion::new(1, 0, 0).beta(1) < TaggedVersion::new(1, 0, 0).beta(2));
    assert!(TaggedVersion::new(1, 0, 0).alpha(1) < TaggedVersion::new(1, 0, 0).alpha(2));
    assert_eq!(TaggedVersion::new(1, 0, 0).release(), TaggedVersion::new(1, 0, 0).release());
}

#[test]
fn test_tagged_triple_order() {
    assert!(TaggedVersion::new(1, 999, 0).beta(9) < TaggedVersion::new(2, 0, 0).alpha(0));
    assert!(TaggedVersion::new(1, 0, 1).alpha(0) > TaggedVersion::new(1, 0, 0).release());
}

#[test]
fn test_tagged_format_release() {
    assert_eq!(TaggedVersion::new(1, 0, 0).release().to_text(), "v1.0.0-release");
}

#[test]
fn test_tagged_format_beta() {
    assert_eq!(TaggedVersion::new(1, 0, 0).beta(0).to_text(), "v1.0.0-beta");
    assert_eq!(TaggedVersion::new(1, 0, 0).beta(1).to_text(), "v1.0.0-beta1");
    assert_eq!(TaggedVersion::new(2, 10, 3).beta(42).to_text(), "v2.10.3-beta42");
}

#[test]
fn test_tagged_format_alpha() {
    assert_eq!(TaggedVersion::new(1, 0, 0).alpha(0).to_text(), "v1.0.0-alpha");
    assert_eq!(TaggedVersion::new(1, 0, 0).alpha(2).to_text(), "v1.0.0-alpha2");
}

#[test]
fn test_tagged_retag_replaces_qualifier() {
    let base = TaggedVersion::new(1, 2, 3);

    assert_eq!(base.beta(3).release(), TaggedVersion::new(1, 2, 3).release());
    assert_eq!(TaggedVersion::new(1, 2, 3).alpha(2).beta(7), TaggedVersion::new(1, 2, 3).beta(7));
}

#[test]
fn test_tagged_mutation_visible() {
    let mut version = TaggedVersion::new(1, 0, 0);
    let other = TaggedVersion::new(1, 0, 0);

    version.version_type = VersionType::Alpha(3);
    assert!(version < other);
    assert_eq!(version.to_text(), "v1.0.0-alpha3");

    version.minor = 5;
    assert!(version > other);
}

#[test]
fn test_from_pkg_ok() {
    let version = TaggedVersion::from_pkg("1.2.3").unwrap();

    assert_eq!(version, TaggedVersion::new(1, 2, 3).release());
}

#[test]
fn test_from_pkg_two_parts() {
    assert_eq!(TaggedVersion::from_pkg("1.2"), Err(ParseError));
}

#[test]
fn test_from_pkg_non_numeric_part() {
    assert_eq!(TaggedVersion::from_pkg("1.2.x"), Err(ParseError));
}

#[test]
fn test_from_pkg_four_parts() {
    assert_eq!(TaggedVersion::from_pkg("1.2.3.4"), Err(ParseError));
}

#[test]
fn test_from_pkg_empty_parts() {
    assert_eq!(TaggedVersion::from_pkg(""), Err(ParseError));
    assert_eq!(TaggedVersion::from_pkg("1..3"), Err(ParseError));
    assert_eq!(TaggedVersion::from_pkg("1.2."), Err(ParseError));
    assert_eq!(TaggedVersion::from_pkg(".2.3"), Err(ParseError));
}

#[test]
fn test_from_pkg_range() {
    let version = TaggedVersion::from_pkg("65535.0.0").unwrap();
    assert_eq!(version.major, 65535);

    assert_eq!(TaggedVersion::from_pkg("65536.0.0"), Err(ParseError));
}
