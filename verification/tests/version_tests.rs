use updater_core::errors::UpdateError;
use updater_core::version::compare;
use updater_core::version::Cmp;
use updater_core::version::Version;

#[test]
fn parse_exposes_components() {
    let v = Version::parse("1.22.333-rc1").unwrap();
    assert_eq!(v.nums, vec![1, 22, 333]);
    assert_eq!(v.pre.as_deref(), Some("rc1"));
    let bare = Version::parse("0.4.1").unwrap();
    assert_eq!(bare.nums, vec![0, 4, 1]);
    assert!(bare.pre.is_none());
    assert!(Version::parse("x.y").is_err());
}

#[test]
fn numeric_not_lexicographic() {
    assert_eq!(compare("1.2.0", "1.10.0"), Ok(Cmp::Less));
}

#[test]
fn equal_on_same_version() {
    assert_eq!(compare("1.2.3", "1.2.3"), Ok(Cmp::Equal));
    assert_eq!(compare("0.0.0", "0.0.0"), Ok(Cmp::Equal));
}

#[test]
fn antisymmetric_on_a_pair() {
    assert_eq!(compare("1.2.0", "1.10.0"), Ok(Cmp::Less));
    assert_eq!(compare("1.10.0", "1.2.0"), Ok(Cmp::Greater));
}

#[test]
fn transitive_on_a_chain() {
    assert_eq!(compare("1.2.0", "1.3.0"), Ok(Cmp::Less));
    assert_eq!(compare("1.3.0", "2.0.0"), Ok(Cmp::Less));
    assert_eq!(compare("1.2.0", "2.0.0"), Ok(Cmp::Less));
}

#[test]
fn missing_trailing_fields_count_as_zero() {
    assert_eq!(compare("1.2", "1.2.0"), Ok(Cmp::Equal));
    assert_eq!(compare("1", "1.0.1"), Ok(Cmp::Less));
}

#[test]
fn prerelease_orders_before_release() {
    assert_eq!(compare("1.0.0-rc1", "1.0.0"), Ok(Cmp::Less));
    assert_eq!(compare("1.0.0", "1.0.0-rc1"), Ok(Cmp::Greater));
}

#[test]
fn prerelease_suffixes_order_lexicographically() {
    assert_eq!(compare("1.0.0-alpha", "1.0.0-beta"), Ok(Cmp::Less));
    assert_eq!(compare("1.0.0-rc1", "1.0.0-rc2"), Ok(Cmp::Less));
    assert_eq!(compare("1.0.0-rc", "1.0.0-rc1"), Ok(Cmp::Less));
    assert_eq!(compare("1.0.0-rc1", "1.0.0-rc1"), Ok(Cmp::Equal));
}

#[test]
fn leading_zeros_do_not_change_value() {
    assert_eq!(compare("1.02.0", "1.2.0"), Ok(Cmp::Equal));
    assert_eq!(compare("01.0", "1.0"), Ok(Cmp::Equal));
}

#[test]
fn numeric_components_dominate_suffixes() {
    assert_eq!(compare("2.0.0-alpha", "1.9.9"), Ok(Cmp::Greater));
    assert_eq!(compare("1.9.9", "2.0.0-alpha"), Ok(Cmp::Less));
}

#[test]
fn malformed_versions_are_rejected() {
    assert_eq!(compare("abc", "1.0.0"), Err(UpdateError::InvalidVersion));
    assert_eq!(compare("1.0.0", ""), Err(UpdateError::InvalidVersion));
    assert_eq!(compare("1..2", "1.0.0"), Err(UpdateError::InvalidVersion));
    assert_eq!(compare("1.2.", "1.0.0"), Err(UpdateError::InvalidVersion));
    assert_eq!(compare("1.0.0", "1.0.0-"), Err(UpdateError::InvalidVersion));
    assert_eq!(compare("1.0 .0", "1.0.0"), Err(UpdateError::InvalidVersion));
}

#[test]
fn oversized_component_is_rejected() {
    // 20 digits: at or above 10^19 does not fit the 64-bit bound.
    assert_eq!(
        compare("1.99999999999999999999", "1.0"),
        Err(UpdateError::InvalidVersion)
    );
    // 19 digits below 10^19 are accepted.
    assert_eq!(compare("1.9999999999999999999", "1.0"), Ok(Cmp::Greater));
}
