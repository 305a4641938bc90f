use wardian_state::text::{
    chars_of, contains_exec, parse_unsigned, sorted_strings, str_lt, string_from_chars, trimmed_chars, words,
};

#[test]
fn unsigned_parsing_follows_from_str() {
    assert_eq!(parse_unsigned(&chars_of("42"), u64::MAX), Some(42));
    assert_eq!(parse_unsigned(&chars_of("+7"), u64::MAX), Some(7));
    assert_eq!(parse_unsigned(&chars_of("256"), 255), None);
    assert_eq!(parse_unsigned(&chars_of(""), 255), None);
    assert_eq!(parse_unsigned(&chars_of("-1"), 255), None);
    assert_eq!(parse_unsigned(&chars_of("1 2"), 255), None);
}

#[test]
fn trimming_and_words_follow_unicode_whitespace() {
    assert_eq!(string_from_chars(&trimmed_chars("\u{3000} a b \t")), "a b");
    let ws: Vec<String> = words(&chars_of("  one\ntwo\u{a0} three ")).into_iter().map(|w| w.into_iter().collect()).collect();
    assert_eq!(ws, vec!["one", "two", "three"]);
}

#[test]
fn strings_order_by_character() {
    assert!(str_lt("abc", "abd"));
    assert!(str_lt("ab", "abc"));
    assert!(!str_lt("b", "abc"));
    assert_eq!(sorted_strings(vec!["b".to_string(), "a".to_string(), "c".to_string()]), vec!["a", "b", "c"]);
    assert!(contains_exec(&chars_of("hello world"), &chars_of("o w")));
}

#[test]
fn every_unicode_space_separates_words_and_others_do_not() {
    let split = |s: &str| -> Vec<String> { words(&chars_of(s)).into_iter().map(|w| w.into_iter().collect()).collect() };
    for space in ['\t', '\n', '\u{b}', '\u{c}', '\r', ' ', '\u{85}', '\u{a0}', '\u{1680}', '\u{2000}', '\u{200a}', '\u{2028}', '\u{2029}', '\u{202f}', '\u{205f}', '\u{3000}'] {
        assert!(space.is_whitespace());
        assert_eq!(split(&format!("a{space}b")), vec!["a".to_string(), "b".to_string()]);
    }
    for other in ['\u{200b}', '\u{feff}', '\u{180e}', 'x', '\u{1}'] {
        assert!(!other.is_whitespace());
        assert_eq!(split(&format!("a{other}b")).len(), 1);
    }
}
