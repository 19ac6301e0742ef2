use afd::numbers::parse_number;

#[test]
fn parses_plain_decimals() {
    assert_eq!(parse_number(b"0"), Some(0));
    assert_eq!(parse_number(b"7"), Some(7));
    assert_eq!(parse_number(b"123"), Some(123));
    assert_eq!(parse_number(b"2147483647"), Some(i32::MAX));
}

#[test]
fn parses_negative_decimals() {
    assert_eq!(parse_number(b"-1"), Some(-1));
    assert_eq!(parse_number(b"-45"), Some(-45));
    assert_eq!(parse_number(b"-2147483648"), Some(i32::MIN));
}

#[test]
fn rejects_non_numeric_tokens() {
    assert_eq!(parse_number(b""), None);
    assert_eq!(parse_number(b"-"), None);
    assert_eq!(parse_number(b"--3"), None);
    assert_eq!(parse_number(b"12a"), None);
    assert_eq!(parse_number(b"a12"), None);
    assert_eq!(parse_number(b"1 2"), None);
    assert_eq!(parse_number(b"+5"), None);
}

#[test]
fn overflowing_literals_wrap_in_32_bits() {
    assert_eq!(parse_number(b"2147483648"), Some(i32::MIN));
    assert_eq!(parse_number(b"4294967296"), Some(0));
    assert_eq!(parse_number(b"-2147483649"), Some(i32::MAX));
}
