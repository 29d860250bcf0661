use adguardian::text::{
    chars_of, contains_text, format_decimal, parse_unsigned_text, same_text, starts_with, string_of_chars,
    string_of_range, trim,
};

#[test]
fn decimal_formatting() {
    assert_eq!(format_decimal(0), "0");
    assert_eq!(format_decimal(7), "7");
    assert_eq!(format_decimal(10), "10");
    assert_eq!(format_decimal(107), "107");
    assert_eq!(format_decimal(u64::MAX), u64::MAX.to_string());
}

#[test]
fn unsigned_parsing_follows_str_parse() {
    let cases = [
        "", "+", "-", "5", "+5", "-5", "007", " 5", "5 ", "12a", "65535", "65536", "4294967295",
        "4294967296", "18446744073709551615", "18446744073709551616", "99999999999999999999999",
        "\u{661}", "++1", "0",
    ];
    for c in cases {
        assert_eq!(parse_unsigned_text(c, u64::MAX), c.parse::<u64>().ok(), "u64 {:?}", c);
        assert_eq!(parse_unsigned_text(c, u16::MAX as u64), c.parse::<u16>().ok().map(|v| v as u64), "u16 {:?}", c);
        assert_eq!(parse_unsigned_text(c, u32::MAX as u64), c.parse::<u32>().ok().map(|v| v as u64), "u32 {:?}", c);
    }
}

#[test]
fn decimal_round_trip_on_values() {
    for n in [0u64, 1, 9, 10, 99, 100, 65535, 4294967296, u64::MAX] {
        assert_eq!(parse_unsigned_text(&format_decimal(n), u64::MAX), Some(n));
    }
}

#[test]
fn trimming_follows_str_trim() {
    let cases = [
        "", "   ", "abc", "  abc \n", "\t\u{3000}x y\u{a0}", "\u{85}\u{2028}\u{2029}", "\u{200b}z\u{200b}",
        "\u{1680}a\u{202f}\u{205f}", "\r\n value \x0b\x0c",
    ];
    for c in cases {
        assert_eq!(trim(c), c.trim(), "{:?}", c);
    }
}

#[test]
fn trimming_is_idempotent_on_values() {
    for c in ["  a b  ", "\n\n", "x"] {
        let once = trim(c);
        assert_eq!(trim(&once), once);
    }
}

#[test]
fn substring_tests() {
    assert!(contains_text("ADGUARD_PASSWORD", "PASSWORD"));
    assert!(!contains_text("ADGUARD_USERNAME", "PASSWORD"));
    assert!(contains_text("abc", ""));
    assert!(!contains_text("PASS", "PASSWORD"));
    assert!(starts_with("--adguard-ip", "--"));
    assert!(!starts_with("-x", "--"));
    assert!(starts_with("anything", ""));
    assert!(same_text("ADGUARD_PORT", "ADGUARD_PORT"));
    assert!(!same_text("ADGUARD_PORT", "ADGUARD_POR"));
}

#[test]
fn character_lists() {
    let c = chars_of("h\u{e4}llo");
    assert_eq!(c, vec!['h', '\u{e4}', 'l', 'l', 'o']);
    assert_eq!(string_of_chars(&c), "h\u{e4}llo");
    assert_eq!(string_of_range(&c, 1, 3), "\u{e4}l");
}
