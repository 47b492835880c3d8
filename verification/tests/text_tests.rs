use rocky_rs::text::{parse_counter_text, parse_u32, str_eq, u64_to_string};

#[test]
fn decimal_rendering() {
    assert_eq!(u64_to_string(0), "0");
    assert_eq!(u64_to_string(7), "7");
    assert_eq!(u64_to_string(10), "10");
    assert_eq!(u64_to_string(987654321), "987654321");
    assert_eq!(u64_to_string(u64::MAX), "18446744073709551615");
}

#[test]
fn counter_text_plain() {
    assert_eq!(parse_counter_text("42"), 42);
    assert_eq!(parse_counter_text("0"), 0);
    assert_eq!(parse_counter_text("18446744073709551615"), u64::MAX);
}

#[test]
fn counter_text_trims_whitespace() {
    assert_eq!(parse_counter_text(" 42\n"), 42);
    assert_eq!(parse_counter_text("\t123\r\n"), 123);
}

#[test]
fn counter_text_accepts_leading_plus() {
    assert_eq!(parse_counter_text("+42"), 42);
}

#[test]
fn counter_text_malformed_is_zero() {
    assert_eq!(parse_counter_text(""), 0);
    assert_eq!(parse_counter_text("   "), 0);
    assert_eq!(parse_counter_text("abc"), 0);
    assert_eq!(parse_counter_text("12x"), 0);
    assert_eq!(parse_counter_text("-5"), 0);
    assert_eq!(parse_counter_text("+"), 0);
}

#[test]
fn counter_text_overflow_is_zero() {
    assert_eq!(parse_counter_text("18446744073709551616"), 0);
    assert_eq!(parse_counter_text("99999999999999999999999"), 0);
}

#[test]
fn parse_u32_exact() {
    assert_eq!(parse_u32("0"), Some(0));
    assert_eq!(parse_u32("1"), Some(1));
    assert_eq!(parse_u32("+7"), Some(7));
    assert_eq!(parse_u32("4294967295"), Some(u32::MAX));
    assert_eq!(parse_u32("4294967296"), None);
    assert_eq!(parse_u32(""), None);
    assert_eq!(parse_u32(" 1"), None);
    assert_eq!(parse_u32("1 "), None);
    assert_eq!(parse_u32("x"), None);
}

#[test]
fn string_equality() {
    assert!(str_eq("", ""));
    assert!(str_eq("abc", "abc"));
    assert!(!str_eq("abc", "abd"));
    assert!(!str_eq("abc", "ab"));
}
