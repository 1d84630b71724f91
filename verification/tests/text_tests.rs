use iroh_gateway::text::{char_is_whitespace, chars_of, parse_u16_text, push_decimal, text_eq, text_less};

#[test]
fn decimal_rendering() {
    for n in [0u64, 7, 10, 99, 100, 65535, 1234567890, u64::MAX] {
        let mut s = String::from("n=");
        push_decimal(&mut s, n);
        assert_eq!(s, format!("n={n}"));
    }
}

#[test]
fn decimal_round_trips_through_port_parsing() {
    for n in [0u16, 1, 80, 443, 8080, 65535] {
        let mut s = String::new();
        push_decimal(&mut s, n as u64);
        assert_eq!(parse_u16_text(&s), Some(n));
    }
}

#[test]
fn port_parsing_matches_std() {
    for text in ["0", "+0", "00080", "65535", "65536", "", "+", "-", "-0", "1a", " 1", "٣", "+-1", "++1"] {
        assert_eq!(parse_u16_text(text), text.parse::<u16>().ok(), "{text:?}");
    }
}

#[test]
fn text_helpers() {
    assert_eq!(chars_of("añb"), vec!['a', 'ñ', 'b']);
    assert!(text_eq("abc", "abc"));
    assert!(!text_eq("abc", "abd"));
    assert!(!text_eq("ab", "abc"));
    assert!(text_less("ab", "abc"));
    assert!(text_less("abc", "abd"));
    assert!(!text_less("abc", "abc"));
    assert!(!text_less("b", "abc"));
    assert!(text_less("", "a"));
    for c in ['\t', '\n', '\u{0b}', ' ', '\u{85}', '\u{a0}', '\u{2000}', '\u{200a}', '\u{3000}', 'a', '\u{200b}', '_'] {
        assert_eq!(char_is_whitespace(c), c.is_whitespace(), "{c:?}");
    }
}
