use eu4_parser::text::{amount_to_string, bytes_to_hex, i64_to_string, parse_dec_i64, u64_to_string};

#[test]
fn renders_zero() {
    assert_eq!(u64_to_string(0), "0");
}

#[test]
fn renders_large_number() {
    assert_eq!(u64_to_string(1234567890), "1234567890");
}

#[test]
fn renders_negative_number() {
    assert_eq!(i64_to_string(-5), "-5");
    assert_eq!(i64_to_string(42), "42");
    assert_eq!(i64_to_string(i64::MIN), "-9223372036854775808");
}

#[test]
fn renders_fixed_point_amounts() {
    assert_eq!(amount_to_string(1500), "1.500");
    assert_eq!(amount_to_string(0), "0.000");
    assert_eq!(amount_to_string(-250), "-0.250");
    assert_eq!(amount_to_string(12000), "12.000");
    assert_eq!(amount_to_string(10_500), "10.500");
}

#[test]
fn renders_bytes_as_lower_hex() {
    assert_eq!(bytes_to_hex(&[0x0f, 0xa0, 0x00, 0xff]), "0fa000ff");
    assert_eq!(bytes_to_hex(&[]), "");
}

#[test]
fn parses_unsigned_decimals() {
    assert_eq!(parse_dec_i64("0"), Some(0));
    assert_eq!(parse_dec_i64("123"), Some(123));
    assert_eq!(parse_dec_i64("9223372036854775807"), Some(i64::MAX));
}

#[test]
fn rejects_bad_decimals() {
    assert_eq!(parse_dec_i64(""), None);
    assert_eq!(parse_dec_i64("12a"), None);
    assert_eq!(parse_dec_i64("-5"), None);
    assert_eq!(parse_dec_i64("9223372036854775808"), None);
    assert_eq!(parse_dec_i64("99999999999999999999"), None);
}
