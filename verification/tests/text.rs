use maic_desktop::text::{
    contains_text, decimal_text, is_space_char, parse_port, same_text, second_word_is, trim_text,
};

#[test]
fn white_space_is_that_of_unicode() {
    for n in 0..=0x10ffffu32 {
        if let Some(c) = char::from_u32(n) {
            assert_eq!(is_space_char(c), c.is_whitespace(), "{n:#x}");
        }
    }
}

#[test]
fn trimming_takes_both_ends() {
    assert_eq!(trim_text(" \t a b \r\n"), "a b");
    assert_eq!(trim_text("\u{3000}x\u{a0}"), "x");
    assert_eq!(trim_text("   "), "");
    assert_eq!(trim_text(""), "");
}

#[test]
fn substrings_are_found_anywhere() {
    assert!(contains_text("Error: MODULE_NOT_FOUND", "MODULE_NOT_FOUND"));
    assert!(contains_text("abab", "bab"));
    assert!(contains_text("abc", ""));
    assert!(!contains_text("ab", "abc"));
    assert!(!contains_text("MODULE-NOT-FOUND", "MODULE_NOT_FOUND"));
}

#[test]
fn texts_compare_by_their_characters() {
    assert!(same_text("größe", "größe"));
    assert!(!same_text("main", "main "));
    assert!(!same_text("main", "mail"));
}

#[test]
fn second_words_stay_on_the_first_line() {
    assert!(second_word_is("a b c\nd", "b"));
    assert!(second_word_is("  a\u{a0}b", "b"));
    assert!(!second_word_is("a\nb", "b"));
    assert!(!second_word_is("a", "a"));
    assert!(!second_word_is("", ""));
}

#[test]
fn ports_are_decimal_numbers() {
    assert_eq!(parse_port("31846"), Some(31846));
    assert_eq!(parse_port("+80"), Some(80));
    assert_eq!(parse_port("00065535"), Some(65535));
    assert_eq!(parse_port("65536"), None);
    assert_eq!(parse_port("99999999999999999999"), None);
    assert_eq!(parse_port("-1"), None);
    assert_eq!(parse_port("+"), None);
    assert_eq!(parse_port("++1"), None);
    assert_eq!(parse_port(""), None);
    assert_eq!(parse_port("12a"), None);
    assert_eq!(parse_port(" 12"), None);
}

#[test]
fn decimal_forms_are_those_of_the_standard_library() {
    for port in 0..=u16::MAX {
        let text = decimal_text(port);
        assert_eq!(text, port.to_string());
        assert_eq!(parse_port(&text), Some(port));
    }
}
