use setu_cli::text::{decimal_text, is_whitespace, starts_with, trimmed};

#[test]
fn whitespace_is_unicode_whitespace() {
    for code in 0u32..=0x10FFFF {
        if let Some(c) = char::from_u32(code) {
            assert_eq!(is_whitespace(c), c.is_whitespace(), "U+{:04X}", code);
        }
    }
}

#[test]
fn trimming_matches_str_trim() {
    for s in [
        "",
        " ",
        "  a  ",
        "\t\n a b \r\n",
        "\u{3000}x\u{2029}",
        "x\u{200b}",
        "\u{feff}y",
        "é ü",
        "no-space",
    ] {
        assert_eq!(trimmed(s), s.trim(), "{:?}", s);
    }
}

#[test]
fn decimal_matches_to_string() {
    for n in 0u16..=u16::MAX {
        assert_eq!(decimal_text(n), n.to_string());
    }
}

#[test]
fn prefixes() {
    assert!(starts_with("https://x", "https://"));
    assert!(starts_with("abc", ""));
    assert!(starts_with("abc", "abc"));
    assert!(!starts_with("ab", "abc"));
    assert!(!starts_with("xbc", "abc"));
    assert!(starts_with("éa", "é"));
}
