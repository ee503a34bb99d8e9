use simple_version::ParseError;
use simple_version::Version;
use simple_version::version_from_pkg;

#[test]
fn test_new() {
    let version = Version::new(1, 2, 3);

    assert_eq!(version.major, 1);
    assert_eq!(version.minor, 2);
    assert_eq!(version.patch, 3);
    assert!(version.build.is_none());
}

#[test]
fn test_mutatbility() {
    let mut version = Version::new(1, 2, 3);

    version.major = 4;
    version.minor = 5;
    version.patch = 6;

    assert_eq!(version.major, 4);
    assert_eq!(version.minor, 5);
    assert_eq!(version.patch, 6);
    assert!(version.build.is_none());
}

#[test]
fn test_build_number() {
    let version = Version::new(1, 2, 3).build(4);

    assert!(version.build.is_some_and(|build| build == 4));
}

#[test]
fn test_basic_compare() {
    let version1 = Version::new(1, 999, 0);
    let version2 = Version::new(2, 0, 0);

    assert!(version1 < version2);
}

#[test]
fn test_build_num_compare() {
    let version1 = Version::new(1, 0, 0).build(1);
    let version2 = Version::new(1, 0, 0).build(2);

    assert!(version1 < version2);
}

#[test]
fn test_mixed_compare() {
    let version1 = Version::new(1, 0, 0);
    let version2 = Version::new(1, 0, 0).build(1);

    assert!(version1 < version2);
}

#[test]
fn test_pkg_version() {
    let version = Version::new(1, 2, 3);

    let version_from_pkg = version_from_pkg("1", "2", "3").unwrap();

    assert_eq!(version, version_from_pkg);
}

#[test]
fn test_format_plain() {
    assert_eq!(Version::new(1, 2, 3).to_text(), "1.2.3");
    assert_eq!(Version::new(0, 0, 0).to_text(), "0.0.0");
}

#[test]
fn test_format_with_build() {
    assert_eq!(Version::new(1, 2, 3).build(4).to_text(), "1.2.3+4");
}

#[test]
fn test_format_build_zero() {
    let plain = Version::new(1, 2, 3);
    let zero_build = Version::new(1, 2, 3).build(0);

    assert_eq!(zero_build.to_text(), "1.2.3+0");
    assert_ne!(plain.to_text(), zero_build.to_text());
}

#[test]
fn test_format_large_components() {
    assert_eq!(Version::new(4294967295, 0, 10).to_text(), "4294967295.0.10");
}

#[test]
fn test_build_overwritten() {
    let version = Version::new(1, 2, 3).build(4).build(7);

    assert!(version.build.is_some_and(|build| build == 7));
}

#[test]
fn test_equality() {
    assert_eq!(Version::new(1, 2, 3), Version::new(1, 2, 3));
    assert_ne!(Version::new(1, 2, 3), Version::new(1, 2, 4));
    assert_ne!(Version::new(1, 2, 3), Version::new(1, 2, 3).build(0));
    assert_eq!(Version::new(1, 2, 3).build(0), Version::new(1, 2, 3).build(0));
}

#[test]
fn test_mutation_visible_in_compare_and_format() {
    let mut version = Version::new(1, 0, 0);
    let other = Version::new(1, 0, 0);

    version.major = 2;
    assert!(other < version);

    version.build = Some(5);
    assert_eq!(version.to_text(), "2.0.0+5");
}

#[test]
fn test_pkg_parts_non_numeric() {
    assert_eq!(version_from_pkg("x", "2", "3"), Err(ParseError));
    assert_eq!(version_from_pkg("1", "2", "3a"), Err(ParseError));
    assert_eq!(version_from_pkg("-1", "2", "3"), Err(ParseError));
}

#[test]
fn test_pkg_parts_empty() {
    assert_eq!(version_from_pkg("", "2", "3"), Err(ParseError));
}

#[test]
fn test_pkg_parts_range() {
    let version = version_from_pkg("4294967295", "0", "0").unwrap();
    assert_eq!(version.major, 4294967295);

    assert_eq!(version_from_pkg("4294967296", "0", "0"), Err(ParseError));
}

#[test]
fn test_pkg_parts_leading_zeroes() {
    let version = version_from_pkg("007", "08", "0").unwrap();

    assert_eq!(version, Version::new(7, 8, 0));
}
