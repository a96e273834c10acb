use seo_analyzer::text::char_count;
use seo_analyzer::text::char_is_ascii_space;
use seo_analyzer::text::decimal_string;
use seo_analyzer::text::trim_ascii;

#[test]
fn trim_removes_ascii_whitespace_at_both_ends() {
    assert_eq!(trim_ascii("  hello  "), "hello");
    assert_eq!(trim_ascii("\t\n\r\u{0C} a b \u{0C}\r\n\t"), "a b");
    assert_eq!(trim_ascii("x"), "x");
    assert_eq!(trim_ascii(" x"), "x");
    assert_eq!(trim_ascii("x "), "x");
}

#[test]
fn trim_of_blank_text_is_empty() {
    assert_eq!(trim_ascii(""), "");
    assert_eq!(trim_ascii(" "), "");
    assert_eq!(trim_ascii(" \t\n "), "");
}

#[test]
fn trim_keeps_inner_and_other_whitespace() {
    assert_eq!(trim_ascii(" a  b "), "a  b");
    // A no-break space is no ASCII whitespace.
    assert_eq!(trim_ascii("\u{A0}a\u{A0}"), "\u{A0}a\u{A0}");
    assert_eq!(trim_ascii(" é ü "), "é ü");
}

#[test]
fn ascii_space_is_one_of_five_characters() {
    for c in [' ', '\t', '\n', '\u{0C}', '\r'] {
        assert!(char_is_ascii_space(c));
    }
    for c in ['a', '0', '\u{0B}', '\u{A0}', '\u{2003}', '<'] {
        assert!(!char_is_ascii_space(c));
    }
}

#[test]
fn decimal_of_small_and_large_numbers() {
    assert_eq!(decimal_string(0), "0");
    assert_eq!(decimal_string(7), "7");
    assert_eq!(decimal_string(10), "10");
    assert_eq!(decimal_string(109), "109");
    assert_eq!(decimal_string(9876543210), "9876543210");
    assert_eq!(decimal_string(usize::MAX), format!("{}", usize::MAX));
}

#[test]
fn decimal_agrees_with_the_standard_formatting() {
    for n in 0..2000usize {
        assert_eq!(decimal_string(n), format!("{}", n));
    }
}

#[test]
fn char_count_counts_code_points() {
    assert_eq!(char_count(&String::from("")), 0);
    assert_eq!(char_count(&String::from("abc")), 3);
    assert_eq!(char_count(&String::from("Título")), 6);
    assert_eq!(char_count(&String::from("日本語")), 3);
}
