use blog_api::numfmt::{fmt_i64, fmt_u64};
use blog_api::oid::{hex_string_of_bytes, id_from_hex};

#[test]
fn renders_decimals_like_the_standard_formatter() {
    assert_eq!(fmt_u64(0), "0");
    assert_eq!(fmt_u64(7), "7");
    assert_eq!(fmt_u64(86400), "86400");
    assert_eq!(fmt_u64(u64::MAX), u64::MAX.to_string());
    assert_eq!(fmt_i64(0), "0");
    assert_eq!(fmt_i64(-5), "-5");
    assert_eq!(fmt_i64(i64::MIN), i64::MIN.to_string());
    assert_eq!(fmt_i64(i64::MAX), i64::MAX.to_string());
}

#[test]
fn id_text_round_trips() {
    let bytes: Vec<u8> = (1..=12).collect();
    let text = hex_string_of_bytes(&bytes);
    assert_eq!(text, "0102030405060708090a0b0c");
    assert_eq!(id_from_hex(&text), Some(bytes));
}

#[test]
fn id_text_must_be_exactly_twenty_four_hex_digits() {
    assert!(id_from_hex("0102030405060708090a0b").is_none());
    assert!(id_from_hex("0102030405060708090a0b0c0d").is_none());
    assert!(id_from_hex("0102030405060708090a0bzz").is_none());
    assert!(id_from_hex("").is_none());
}
