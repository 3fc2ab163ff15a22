use amazon_network::digits::format_usize;
use amazon_network::digits::parse_usize;

#[test]
fn test_format_usize_decimal() {
    assert_eq!(format_usize(0), "0");
    assert_eq!(format_usize(7), "7");
    assert_eq!(format_usize(10), "10");
    assert_eq!(format_usize(1234567890), "1234567890");
}

#[test]
fn test_parse_usize_accepts_plain_and_signed() {
    assert_eq!(parse_usize("0"), Some(0));
    assert_eq!(parse_usize("42"), Some(42));
    assert_eq!(parse_usize("+42"), Some(42));
    assert_eq!(parse_usize("007"), Some(7));
    assert_eq!(parse_usize(&usize::MAX.to_string()), Some(usize::MAX));
}

#[test]
fn test_parse_usize_rejects_bad_fields() {
    assert_eq!(parse_usize(""), None);
    assert_eq!(parse_usize("+"), None);
    assert_eq!(parse_usize("-1"), None);
    assert_eq!(parse_usize("4.5"), None);
    assert_eq!(parse_usize("12x"), None);
    assert_eq!(parse_usize(" 12"), None);
    // one past the largest representable value
    assert_eq!(parse_usize("18446744073709551616"), None);
}
