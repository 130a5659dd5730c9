use remote_agent::text::decimal_text;
use remote_agent::text::has_suffix;
use remote_agent::text::signed_decimal_text;

#[test]
fn decimal_text_writes_numerals() {
    assert_eq!(decimal_text(0), "0");
    assert_eq!(decimal_text(5), "5");
    assert_eq!(decimal_text(9), "9");
    assert_eq!(decimal_text(10), "10");
    assert_eq!(decimal_text(1234567890), "1234567890");
    assert_eq!(decimal_text(u64::MAX), "18446744073709551615");
    for n in [11u64, 99, 100, 101, 4096, 1_000_000, 999_999_999_999] {
        assert_eq!(decimal_text(n), format!("{}", n));
    }
}

#[test]
fn signed_decimal_text_writes_the_sign() {
    assert_eq!(signed_decimal_text(0), "0");
    assert_eq!(signed_decimal_text(3), "3");
    assert_eq!(signed_decimal_text(-1), "-1");
    assert_eq!(signed_decimal_text(-120), "-120");
    assert_eq!(signed_decimal_text(i64::MAX), "9223372036854775807");
    assert_eq!(signed_decimal_text(i64::MIN), "-9223372036854775808");
    assert_eq!(signed_decimal_text(i32::MIN as i64), "-2147483648");
}

#[test]
fn has_suffix_compares_the_end() {
    assert!(has_suffix("a.txt.prev", ".prev"));
    assert!(has_suffix(".prev", ".prev"));
    assert!(has_suffix("anything", ""));
    assert!(has_suffix("", ""));
    assert!(!has_suffix("prev", ".prev"));
    assert!(!has_suffix("a.prev ", ".prev"));
    assert!(!has_suffix("a.prevx", ".prev"));
    assert!(!has_suffix("a.PREV", ".prev"));
    assert!(!has_suffix("", ".prev"));
    assert!(has_suffix("\u{e9}t\u{e9}.prev", ".prev"));
    assert!(has_suffix("na\u{ef}ve", "\u{ef}ve"));
    assert!(!has_suffix("naive", "\u{ef}ve"));
}
