use mqtt_adls_bridge::text::{contains, decimal_text, remove_char, split_on, starts_with, trim};

#[test]
fn starts_with_accepts_a_prefix_only() {
    assert!(starts_with("packml/event/1", "packml"));
    assert!(!starts_with("my/packml", "packml"));
    assert!(starts_with("anything", ""));
    assert!(!starts_with("pack", "packml"));
}

#[test]
fn contains_finds_a_pattern_anywhere() {
    assert!(contains("packml/event/1", "event"));
    assert!(contains("event", "event"));
    assert!(!contains("packml/even/t", "event"));
    assert!(contains("", ""));
    assert!(!contains("", "x"));
}

#[test]
fn trim_removes_surrounding_whitespace() {
    assert_eq!(trim("  a b \t\n"), "a b");
    assert_eq!(trim("\u{3000}x\u{a0}"), "x");
    assert_eq!(trim("   "), "");
    assert_eq!(trim(""), "");
}

#[test]
fn remove_char_drops_every_occurrence() {
    assert_eq!(remove_char("\"0x03015100\"", '"'), "0x03015100");
    assert_eq!(remove_char("a\"b\"\"c", '"'), "abc");
    assert_eq!(remove_char("", '"'), "");
}

#[test]
fn split_on_keeps_empty_pieces() {
    assert_eq!(split_on("a,b,,", ','), vec!["a", "b", "", ""]);
    assert_eq!(split_on("", ','), vec![""]);
    assert_eq!(split_on("abc", ','), vec!["abc"]);
}

#[test]
fn decimal_text_writes_signed_numbers() {
    assert_eq!(decimal_text(0), "0");
    assert_eq!(decimal_text(2026), "2026");
    assert_eq!(decimal_text(-4), "-4");
    assert_eq!(decimal_text(i64::MIN), "-9223372036854775808");
    assert_eq!(decimal_text(i64::MAX), "9223372036854775807");
}
