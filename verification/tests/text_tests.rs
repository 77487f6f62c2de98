use fileshare::text::parse_usize;

#[test]
fn parses_plain_numbers() {
    assert_eq!(parse_usize(b"0"), Some(0));
    assert_eq!(parse_usize(b"7"), Some(7));
    assert_eq!(parse_usize(b"123"), Some(123));
    assert_eq!(parse_usize(b"007"), Some(7));
}

#[test]
fn rejects_empty_and_non_digits() {
    assert_eq!(parse_usize(b""), None);
    assert_eq!(parse_usize(b"12a"), None);
    assert_eq!(parse_usize(b"-3"), None);
    assert_eq!(parse_usize(b" 3"), None);
    assert_eq!(parse_usize(b"3 "), None);
}

#[test]
fn rejects_numbers_that_overflow() {
    assert_eq!(parse_usize(b"18446744073709551615"), Some(usize::MAX));
    assert_eq!(parse_usize(b"18446744073709551616"), None);
    assert_eq!(parse_usize(b"99999999999999999999999999"), None);
}
