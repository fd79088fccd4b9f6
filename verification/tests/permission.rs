use fsfind::permission::{parse_descriptor, PermissionFilter, PermissionTest, PERMISSION_MASK};

#[test]
fn three_digits_ask_for_exactly_those_bits() {
    assert_eq!(parse_descriptor("644"), Some(PermissionFilter { bits: 0o644, test: PermissionTest::Exact }));
    assert_eq!(parse_descriptor("644").unwrap().bits, 420);
}

#[test]
fn a_plus_asks_for_at_least_those_bits() {
    assert_eq!(parse_descriptor("+111"), Some(PermissionFilter { bits: 0o111, test: PermissionTest::AtLeast }));
}

#[test]
fn one_to_four_digits_are_read() {
    assert_eq!(parse_descriptor("7").unwrap().bits, 7);
    assert_eq!(parse_descriptor("0").unwrap().bits, 0);
    assert_eq!(parse_descriptor("0755").unwrap().bits, 0o755);
    assert_eq!(parse_descriptor("7777").unwrap().bits, 4095);
    assert_eq!(parse_descriptor("+7777").unwrap().bits, PERMISSION_MASK);
}

#[test]
fn other_descriptors_are_refused() {
    assert_eq!(parse_descriptor(""), None);
    assert_eq!(parse_descriptor("+"), None);
    assert_eq!(parse_descriptor("00644"), None);
    assert_eq!(parse_descriptor("648"), None);
    assert_eq!(parse_descriptor("rwx"), None);
    assert_eq!(parse_descriptor("64+"), None);
    assert_eq!(parse_descriptor("++64"), None);
    assert_eq!(parse_descriptor("-644"), None);
    assert_eq!(parse_descriptor("６４４"), None);
}

#[test]
fn the_exact_test_looks_at_the_permission_bits_only() {
    let filter = PermissionFilter { bits: 0o644, test: PermissionTest::Exact };
    assert!(filter.allows(0o644));
    assert!(filter.allows(0o100644));
    assert!(!filter.allows(0o640));
    assert!(!filter.allows(0o755));
    assert!(!filter.allows(0o4644));
}

#[test]
fn the_minimum_test_allows_more_bits() {
    let filter = PermissionFilter { bits: 0o444, test: PermissionTest::AtLeast };
    assert!(filter.allows(0o444));
    assert!(filter.allows(0o644));
    assert!(filter.allows(0o777));
    assert!(!filter.allows(0o440));
    assert!(!filter.allows(0o333));
}
