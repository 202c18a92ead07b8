use cluster_updater::version::Version;

fn plain(major: u64, minor: u64, patch: u64) -> Version {
    Version { major, minor, patch, pre: vec![] }
}

fn with_pre(major: u64, minor: u64, patch: u64, pre: &[&str]) -> Version {
    Version { major, minor, patch, pre: pre.iter().map(|p| p.as_bytes().to_vec()).collect() }
}

#[test]
fn numeric_fields_order() {
    assert!(plain(4, 1, 0).precedes(&plain(4, 2, 0)));
    assert!(plain(4, 1, 5).precedes(&plain(4, 2, 0)));
    assert!(!plain(4, 2, 0).precedes(&plain(4, 1, 5)));
    assert!(plain(4, 1, 0).precedes(&plain(4, 10, 0)));
    assert!(plain(1, 9, 9).precedes(&plain(2, 0, 0)));
    assert!(!plain(4, 2, 0).precedes(&plain(4, 2, 0)));
}

#[test]
fn prerelease_precedes_release() {
    assert!(with_pre(1, 0, 0, &["alpha"]).precedes(&plain(1, 0, 0)));
    assert!(!plain(1, 0, 0).precedes(&with_pre(1, 0, 0, &["alpha"])));
}

#[test]
fn prerelease_identifier_order() {
    // numeric identifiers compare numerically
    assert!(with_pre(1, 0, 0, &["99"]).precedes(&with_pre(1, 0, 0, &["100"])));
    // numeric identifiers precede alphanumeric ones
    assert!(with_pre(1, 0, 0, &["1"]).precedes(&with_pre(1, 0, 0, &["alpha"])));
    assert!(!with_pre(1, 0, 0, &["alpha"]).precedes(&with_pre(1, 0, 0, &["1"])));
    // alphanumeric identifiers compare lexically in ASCII order
    assert!(with_pre(1, 0, 0, &["alpha"]).precedes(&with_pre(1, 0, 0, &["beta"])));
    // a shorter identifier list precedes a longer one it prefixes
    assert!(with_pre(1, 0, 0, &["alpha"]).precedes(&with_pre(1, 0, 0, &["alpha", "1"])));
    // the semver ordering chain: alpha < alpha.1 < alpha.beta < beta < beta.2
    assert!(with_pre(1, 0, 0, &["alpha", "1"]).precedes(&with_pre(1, 0, 0, &["alpha", "beta"])));
    assert!(with_pre(1, 0, 0, &["alpha", "beta"]).precedes(&with_pre(1, 0, 0, &["beta"])));
    assert!(with_pre(1, 0, 0, &["beta"]).precedes(&with_pre(1, 0, 0, &["beta", "2"])));
}

#[test]
fn same_version_is_detected() {
    assert!(plain(4, 2, 0).same_as(&plain(4, 2, 0)));
    assert!(!plain(4, 2, 0).same_as(&plain(4, 2, 1)));
    assert!(with_pre(4, 2, 0, &["rc", "1"]).same_as(&with_pre(4, 2, 0, &["rc", "1"])));
    assert!(!with_pre(4, 2, 0, &["rc", "1"]).same_as(&plain(4, 2, 0)));
}

#[test]
fn clone_keeps_value() {
    let v = with_pre(4, 2, 0, &["rc", "1"]);
    let c = v.clone();
    assert!(c.same_as(&v));
    assert_eq!(c.pre, vec![b"rc".to_vec(), b"1".to_vec()]);
}

#[test]
fn parse_plain_version() {
    let v = Version::parse("4.2.0").expect("a valid version");
    assert_eq!(v.major, 4);
    assert_eq!(v.minor, 2);
    assert_eq!(v.patch, 0);
    assert!(v.pre.is_empty());
}

#[test]
fn parse_prerelease_and_build() {
    let v = Version::parse("1.2.3-rc.1+build5").expect("a valid version");
    assert_eq!(v.major, 1);
    assert_eq!(v.minor, 2);
    assert_eq!(v.patch, 3);
    // build metadata is dropped; the pre-release splits at the dot
    assert_eq!(v.pre, vec![b"rc".to_vec(), b"1".to_vec()]);
}

#[test]
fn parse_rejects_invalid() {
    assert!(Version::parse("").is_none());
    assert!(Version::parse("not a version").is_none());
    assert!(Version::parse("1.2").is_none());
    // a numeric pre-release identifier may not carry a leading zero
    assert!(Version::parse("1.2.3-00").is_none());
}

#[test]
fn parse_orders_as_semver() {
    let a = Version::parse("4.2.0-rc.1").expect("a valid version");
    let b = Version::parse("4.2.0").expect("a valid version");
    assert!(a.precedes(&b));
    assert!(!b.precedes(&a));
}
