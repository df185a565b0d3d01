use filament_tracker::number::{format_i64, parse_i64, parse_u16};
use filament_tracker::text::{same_text, trim};

#[test]
fn parse_i64_reads_plain_and_signed_numbers() {
    assert_eq!(parse_i64("42"), Some(42));
    assert_eq!(parse_i64("+7"), Some(7));
    assert_eq!(parse_i64("-15"), Some(-15));
    assert_eq!(parse_i64("-0"), Some(0));
    assert_eq!(parse_i64("007"), Some(7));
}

#[test]
fn parse_i64_rejects_what_str_parse_rejects() {
    for s in ["", "+", "-", " 1", "1 ", "1a", "--1", "+-1", "0x10", "١"] {
        assert_eq!(parse_i64(s), None, "{s:?}");
        assert_eq!(s.parse::<i64>().ok(), None, "{s:?}");
    }
}

#[test]
fn parse_i64_limits() {
    assert_eq!(parse_i64("9223372036854775807"), Some(i64::MAX));
    assert_eq!(parse_i64("9223372036854775808"), None);
    assert_eq!(parse_i64("-9223372036854775808"), Some(i64::MIN));
    assert_eq!(parse_i64("-9223372036854775809"), None);
    assert_eq!(parse_i64("00000000000000000000000000001"), Some(1));
}

#[test]
fn parse_i64_agrees_with_std_on_samples() {
    for s in ["0", "12", "-12", "+0", "99999999999999999999", "-1x", "1_000", "  ", "+12345"] {
        assert_eq!(parse_i64(s), s.parse::<i64>().ok(), "{s:?}");
    }
}

#[test]
fn parse_u16_reads_ports() {
    assert_eq!(parse_u16("8080"), Some(8080));
    assert_eq!(parse_u16("+80"), Some(80));
    assert_eq!(parse_u16("65535"), Some(65535));
    assert_eq!(parse_u16("65536"), None);
    assert_eq!(parse_u16("-1"), None);
    assert_eq!(parse_u16("-0"), None);
    assert_eq!(parse_u16(""), None);
    assert_eq!(parse_u16("80a"), None);
}

#[test]
fn format_i64_writes_decimal_text() {
    assert_eq!(format_i64(0), "0");
    assert_eq!(format_i64(7), "7");
    assert_eq!(format_i64(-5), "-5");
    assert_eq!(format_i64(1234567890), "1234567890");
    assert_eq!(format_i64(i64::MAX), i64::MAX.to_string());
    assert_eq!(format_i64(i64::MIN), i64::MIN.to_string());
}

#[test]
fn format_then_parse_gives_the_number_back() {
    for n in [0, 1, -1, 42, -42, 1000, i64::MAX, i64::MIN, 987654321] {
        assert_eq!(parse_i64(&format_i64(n)), Some(n));
    }
}

#[test]
fn trim_removes_unicode_white_space_at_both_ends() {
    assert_eq!(trim("  PLA \n"), "PLA");
    assert_eq!(trim("\t\u{3000}PETG\u{a0}"), "PETG");
    assert_eq!(trim("a b"), "a b");
    assert_eq!(trim("   "), "");
    assert_eq!(trim(""), "");
    for s in [" x ", "\u{2003}y\u{2029}", "z\u{85}", "\u{200b}w"] {
        assert_eq!(trim(s), s.trim(), "{s:?}");
    }
}

#[test]
fn same_text_compares_characters() {
    assert!(same_text("brand", "brand"));
    assert!(!same_text("brand", "Brand"));
    assert!(!same_text("brand", "brands"));
    assert!(same_text("", ""));
}
