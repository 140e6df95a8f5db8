use debt_value::parse_u32;

#[test]
fn parses_plain_decimals() {
    assert_eq!(parse_u32("0"), Some(0));
    assert_eq!(parse_u32("1"), Some(1));
    assert_eq!(parse_u32("12"), Some(12));
    assert_eq!(parse_u32("365"), Some(365));
    assert_eq!(parse_u32("007"), Some(7));
    assert_eq!(parse_u32("4294967295"), Some(u32::MAX));
}

#[test]
fn rejects_anything_but_digits() {
    assert_eq!(parse_u32(""), None);
    assert_eq!(parse_u32("+3"), None);
    assert_eq!(parse_u32("-1"), None);
    assert_eq!(parse_u32(" 3"), None);
    assert_eq!(parse_u32("3 "), None);
    assert_eq!(parse_u32("3x"), None);
    assert_eq!(parse_u32("1.5"), None);
    assert_eq!(parse_u32("twelve"), None);
}

#[test]
fn rejects_values_out_of_range() {
    assert_eq!(parse_u32("4294967296"), None);
    assert_eq!(parse_u32("999999999999999999999999999999"), None);
    assert_eq!(parse_u32("00000000000000000000000000000005"), Some(5));
}
