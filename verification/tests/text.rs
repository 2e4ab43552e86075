use ledger_engine::text::{push_decimal, same_text, starts_with_zeros, to_decimal, to_lower_hex};

#[test]
fn decimal_of_small_and_large_numbers() {
    assert_eq!(to_decimal(0), "0");
    assert_eq!(to_decimal(7), "7");
    assert_eq!(to_decimal(10), "10");
    assert_eq!(to_decimal(50), "50");
    assert_eq!(to_decimal(1700000000), "1700000000");
    assert_eq!(to_decimal(u64::MAX), "18446744073709551615");
}

#[test]
fn decimal_is_appended_to_what_is_there() {
    let mut out = String::from("n=");
    push_decimal(&mut out, 120);
    push_decimal(&mut out, 0);
    assert_eq!(out, "n=1200");
}

#[test]
fn lower_hex_of_bytes() {
    assert_eq!(to_lower_hex(&[]), "");
    assert_eq!(to_lower_hex(&[0x00, 0x01, 0xab, 0xff, 0x10]), "0001abff10");
    assert_eq!(to_lower_hex(&[0x09, 0x9a, 0xf0, 0x0f]), "099af00f");
}

#[test]
fn leading_zeros_are_counted_from_the_start() {
    assert!(starts_with_zeros("00ab", 0));
    assert!(starts_with_zeros("00ab", 1));
    assert!(starts_with_zeros("00ab", 2));
    assert!(!starts_with_zeros("00ab", 3));
    assert!(!starts_with_zeros("a000", 1));
    assert!(starts_with_zeros("", 0));
    assert!(!starts_with_zeros("", 1));
    assert!(!starts_with_zeros("0", 2));
    assert!(!starts_with_zeros("000", u32::MAX));
}

#[test]
fn same_text_compares_contents() {
    assert!(same_text("", ""));
    assert!(same_text("0", "0"));
    assert!(!same_text("0", "00"));
    assert!(!same_text("abc", "abd"));
    assert!(same_text("héllo", "héllo"));
    assert!(!same_text("héllo", "hello"));
}
