use dnsimple::decimal::{parse_u16, parse_u32};

#[test]
fn parses_plain_decimal_numbers() {
    assert_eq!(parse_u16(b"4000"), Some(4000));
    assert_eq!(parse_u16(b"007"), Some(7));
    assert_eq!(parse_u16(b"+12"), Some(12));
    assert_eq!(parse_u32(b"1450451976"), Some(1450451976));
}

#[test]
fn refuses_what_is_not_a_number_in_range() {
    assert_eq!(parse_u16(b""), None);
    assert_eq!(parse_u16(b"+"), None);
    assert_eq!(parse_u16(b"-1"), None);
    assert_eq!(parse_u16(b" 1"), None);
    assert_eq!(parse_u16(b"12a"), None);
    assert_eq!(parse_u16(b"65536"), None);
    assert_eq!(parse_u32(b"4294967296"), None);
    assert_eq!(parse_u32(b"99999999999999999999"), None);
}
