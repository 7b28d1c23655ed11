use approved_template::text::{
    append_decimal, append_hex, contains_char, has_unsafe_text_control, is_white_space,
    safe_target_id, trim_text, value_line_count,
};

#[test]
fn white_space_is_the_unicode_property() {
    for c in '\0'..=char::MAX {
        assert_eq!(is_white_space(c), c.is_whitespace(), "{:?}", c);
    }
}

#[test]
fn trimming_drops_white_space_at_both_ends_only() {
    for s in [
        "", " ", "a", " a ", "\t\n a b \r\n", "\u{3000}가 나\u{a0}", "\u{200b}a\u{200b}", "\n\n",
        "x\u{85}", "\u{feff} y",
    ] {
        assert_eq!(trim_text(s), s.trim(), "{:?}", s);
    }
}

#[test]
fn numbers_are_appended_in_decimal() {
    for n in [0usize, 7, 10, 99, 100, 65535, 1_000_000, usize::MAX] {
        let mut out = String::from("표 ");
        append_decimal(&mut out, n);
        assert_eq!(out, format!("표 {}", n));
    }
}

#[test]
fn bytes_are_appended_in_lower_case_hexadecimal() {
    let mut out = String::from("x:");
    append_hex(&mut out, &[0x00, 0x0f, 0xa0, 0xff, 0x5c]);
    assert_eq!(out, "x:000fa0ff5c");
    append_hex(&mut out, &[]);
    assert_eq!(out, "x:000fa0ff5c");
}

#[test]
fn characters_are_found() {
    assert!(contains_char("가\u{fffc}나", '\u{fffc}'));
    assert!(contains_char("a", 'a'));
    assert!(!contains_char("", 'a'));
    assert!(!contains_char("abc", 'd'));
}

#[test]
fn identifiers_are_short_and_ascii() {
    assert!(safe_target_id("a"));
    assert!(safe_target_id("Az09-_.:"));
    assert!(safe_target_id(&"x".repeat(128)));
    assert!(!safe_target_id(&"x".repeat(129)));
    assert!(!safe_target_id(""));
    assert!(!safe_target_id("a b"));
    assert!(!safe_target_id("a/b"));
    assert!(!safe_target_id("이름"));
    assert!(!safe_target_id("a\n"));
    assert!(!safe_target_id("é"));
}

#[test]
fn values_must_not_hold_control_characters() {
    assert!(!has_unsafe_text_control(""));
    assert!(!has_unsafe_text_control("한 줄\n두 줄"));
    assert!(!has_unsafe_text_control("\u{80}\u{9f}"));
    for c in ['\0', '\t', '\r', '\u{1}', '\u{b}', '\u{1f}', '\u{7f}', '\u{fffc}'] {
        assert!(has_unsafe_text_control(&format!("a{}b", c)), "{:?}", c);
    }
}

#[test]
fn lines_are_counted_by_line_feeds() {
    assert_eq!(value_line_count(""), 0);
    assert_eq!(value_line_count("a"), 1);
    assert_eq!(value_line_count("a\n"), 2);
    assert_eq!(value_line_count("\n"), 2);
    assert_eq!(value_line_count("a\nb"), 2);
    assert_eq!(value_line_count("a\r\nb"), 2);
    assert_eq!(value_line_count("a\rb"), 1);
    assert_eq!(value_line_count("\n\n\n"), 4);
    assert_eq!(value_line_count(&"줄\n".repeat(1500)), 1501);
}
