use wardian_state::keys::{key_text, virtual_key_code};

#[test]
fn the_editing_keys_that_looked_inert_now_resolve() {
    assert_eq!(virtual_key_code("Backspace", "Backspace"), Some(8));
    assert_eq!(virtual_key_code("Delete", "Delete"), Some(46));
    assert_eq!(virtual_key_code("Enter", "Enter"), Some(13));
    assert_eq!(virtual_key_code("Tab", "Tab"), Some(9));
    assert_eq!(virtual_key_code("ArrowLeft", "ArrowLeft"), Some(37));
    assert_eq!(virtual_key_code("Home", "Home"), Some(36));
    assert_eq!(virtual_key_code("Escape", "Escape"), Some(27));
}

#[test]
fn a_shifted_character_resolves_through_its_physical_key() {
    assert_eq!(virtual_key_code("@", "Digit2"), Some(50));
    assert_eq!(virtual_key_code("A", "KeyA"), Some(65));
    assert_eq!(virtual_key_code("a", "KeyA"), Some(65));
    assert_eq!(virtual_key_code("_", "Minus"), Some(189));
}

#[test]
fn a_bare_character_still_resolves_without_a_code() {
    assert_eq!(virtual_key_code("a", ""), Some(65));
    assert_eq!(virtual_key_code("7", ""), Some(55));
    assert_eq!(virtual_key_code("@", ""), Some(50));
    assert_eq!(virtual_key_code(" ", ""), Some(32));
}

#[test]
fn the_numpad_does_not_borrow_the_number_row() {
    assert_eq!(virtual_key_code("1", "Numpad1"), Some(97));
    assert_eq!(virtual_key_code("1", "Digit1"), Some(49));
    assert_eq!(virtual_key_code("Enter", "NumpadEnter"), Some(13));
}

#[test]
fn function_keys_span_their_whole_range() {
    assert_eq!(virtual_key_code("F1", "F1"), Some(112));
    assert_eq!(virtual_key_code("F12", "F12"), Some(123));
    assert_eq!(virtual_key_code("F24", "F24"), Some(135));
    assert_eq!(virtual_key_code("F25", "F25"), None);
    assert_eq!(virtual_key_code("Fnord", ""), None);
}

#[test]
fn an_unknown_key_reports_nothing_rather_than_guessing() {
    assert_eq!(virtual_key_code("Unidentified", "Unknown"), None);
    assert_eq!(virtual_key_code("é", ""), None);
}

#[test]
fn only_the_keys_whose_character_is_not_their_name_carry_text() {
    assert_eq!(key_text("Enter"), Some("\r"));
    assert_eq!(key_text("Tab"), Some("\t"));
    assert_eq!(key_text("Backspace"), None);
    assert_eq!(key_text("a"), None);
}

#[test]
fn a_malformed_digit_code_falls_back_to_the_printable_key() {
    assert_eq!(virtual_key_code("x", "Digit12"), Some(88));
    assert_eq!(virtual_key_code("", "Digit12"), None);
    assert_eq!(virtual_key_code("F+5", ""), Some(116));
    assert_eq!(virtual_key_code("F01", ""), Some(112));
}

#[test]
fn every_virtual_key_code_lies_between_backspace_and_quote() {
    let keys = ["Backspace", "F24", "F1", "a", "Z", "7", ";", "'", "ScrollLock", "x", " ", "Unidentified"];
    let codes = ["", "Digit0", "KeyQ", "Numpad9", "NumpadEnter", "Quote", "Backquote", "IntlBackslash", "Fn"];
    for key in keys {
        for code in codes {
            if let Some(v) = virtual_key_code(key, code) {
                assert!((8..=222).contains(&v), "{key} {code} -> {v}");
            }
        }
    }
    assert_eq!(virtual_key_code("Backspace", "Quote"), Some(8), "a named key wins whatever code says");
}
