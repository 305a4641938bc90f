//! DOM key identity to Windows virtual key code, on the US layout.
use vstd::prelude::*;

use crate::text::{all_digits, char_is_whitespace, chars_eq, chars_of, decimal_chars, decimal_value, is_ascii_alpha, is_ascii_digit, is_ascii_lower, parse_unsigned, parse_unsigned_spec, push_decimal, push_str_chars, starts_with, starts_with_exec, string_from_chars, str_eq};

verus! {

/// The virtual key code of a named (non-printable) DOM `key`, before function keys.
pub open spec fn named_table(key: Seq<char>) -> Option<i64> {
    if key == "Backspace"@ { Some(8) }
    else if key == "Tab"@ { Some(9) }
    else if key == "Clear"@ { Some(12) }
    else if key == "Enter"@ { Some(13) }
    else if key == "Shift"@ { Some(16) }
    else if key == "Control"@ { Some(17) }
    else if key == "Alt"@ { Some(18) }
    else if key == "Pause"@ { Some(19) }
    else if key == "CapsLock"@ { Some(20) }
    else if key == "Escape"@ { Some(27) }
    else if key == " "@ || key == "Spacebar"@ { Some(32) }
    else if key == "PageUp"@ { Some(33) }
    else if key == "PageDown"@ { Some(34) }
    else if key == "End"@ { Some(35) }
    else if key == "Home"@ { Some(36) }
    else if key == "ArrowLeft"@ { Some(37) }
    else if key == "ArrowUp"@ { Some(38) }
    else if key == "ArrowRight"@ { Some(39) }
    else if key == "ArrowDown"@ { Some(40) }
    else if key == "PrintScreen"@ { Some(44) }
    else if key == "Insert"@ { Some(45) }
    else if key == "Delete"@ { Some(46) }
    else if key == "Meta"@ || key == "OS"@ { Some(91) }
    else if key == "ContextMenu"@ { Some(93) }
    else if key == "NumLock"@ { Some(144) }
    else if key == "ScrollLock"@ { Some(145) }
    else { None }
}

/// `F1` through `F24` map to the contiguous codes from 112.
pub open spec fn function_key_spec(key: Seq<char>) -> Option<i64> {
    if key.len() > 0 && key[0] == 'F' {
        match parse_unsigned_spec(key.drop_first(), u32::MAX as nat) {
            Some(n) => if 1 <= n <= 24 { Some((111 + n) as i64) } else { None },
            None => None,
        }
    } else {
        None
    }
}

pub open spec fn named_key_spec(key: Seq<char>) -> Option<i64> {
    match named_table(key) {
        Some(v) => Some(v),
        None => function_key_spec(key),
    }
}

/// The code of the one ASCII digit in `s`, if `s` is exactly one.
pub open spec fn single_digit_spec(s: Seq<char>) -> Option<u8> {
    if s.len() == 1 && is_ascii_digit(s[0]) { Some(s[0] as u8) } else { None }
}

pub open spec fn ascii_upper_of(c: char) -> char {
    if is_ascii_lower(c) { ((c as u32) - 32) as char } else { c }
}

/// The uppercase code of the one ASCII letter in `s`, if `s` is exactly one.
pub open spec fn single_upper_spec(s: Seq<char>) -> Option<u8> {
    if s.len() == 1 && is_ascii_alpha(s[0]) { Some(ascii_upper_of(s[0]) as u8) } else { None }
}

pub open spec fn physical_table(code: Seq<char>) -> Option<i64> {
    if code == "NumpadMultiply"@ { Some(106) }
    else if code == "NumpadAdd"@ { Some(107) }
    else if code == "NumpadSubtract"@ { Some(109) }
    else if code == "NumpadDecimal"@ { Some(110) }
    else if code == "NumpadDivide"@ { Some(111) }
    else if code == "NumpadEnter"@ { Some(13) }
    else if code == "Semicolon"@ { Some(186) }
    else if code == "Equal"@ { Some(187) }
    else if code == "Comma"@ { Some(188) }
    else if code == "Minus"@ { Some(189) }
    else if code == "Period"@ { Some(190) }
    else if code == "Slash"@ { Some(191) }
    else if code == "Backquote"@ { Some(192) }
    else if code == "BracketLeft"@ { Some(219) }
    else if code == "Backslash"@ || code == "IntlBackslash"@ { Some(220) }
    else if code == "BracketRight"@ { Some(221) }
    else if code == "Quote"@ { Some(222) }
    else { None }
}

/// The code for a physical DOM `code`: digit row, letters, numpad digits, then the table.
pub open spec fn physical_spec(code: Seq<char>) -> Option<i64> {
    if starts_with(code, "Digit"@) {
        match single_digit_spec(code.subrange(5, code.len() as int)) {
            Some(v) => Some(v as i64),
            None => None,
        }
    } else if starts_with(code, "Key"@) {
        match single_upper_spec(code.subrange(3, code.len() as int)) {
            Some(v) => Some(v as i64),
            None => None,
        }
    } else if starts_with(code, "Numpad"@)
        && single_digit_spec(code.subrange(6, code.len() as int)) is Some {
        Some((single_digit_spec(code.subrange(6, code.len() as int))->0 as i64 - 48 + 96) as i64)
    } else {
        physical_table(code)
    }
}

pub open spec fn printable_table(c: char) -> Option<i64> {
    if c == ' ' { Some(32) }
    else if c == ';' || c == ':' { Some(186) }
    else if c == '=' || c == '+' { Some(187) }
    else if c == ',' || c == '<' { Some(188) }
    else if c == '-' || c == '_' { Some(189) }
    else if c == '.' || c == '>' { Some(190) }
    else if c == '/' || c == '?' { Some(191) }
    else if c == '`' || c == '~' { Some(192) }
    else if c == '[' || c == '{' { Some(219) }
    else if c == '\\' || c == '|' { Some(220) }
    else if c == ']' || c == '}' { Some(221) }
    else if c == '\'' || c == '"' { Some(222) }
    else if c == '!' { Some(49) }
    else if c == '@' { Some(50) }
    else if c == '#' { Some(51) }
    else if c == '$' { Some(52) }
    else if c == '%' { Some(53) }
    else if c == '^' { Some(54) }
    else if c == '&' { Some(55) }
    else if c == '*' { Some(56) }
    else if c == '(' { Some(57) }
    else if c == ')' { Some(48) }
    else { None }
}

/// The code for a bare printable character: letters and digits by their uppercase ASCII.
pub open spec fn printable_spec(key: Seq<char>) -> Option<i64> {
    if key.len() != 1 {
        None
    } else if is_ascii_alpha(key[0]) || is_ascii_digit(key[0]) {
        Some(ascii_upper_of(key[0]) as u8 as i64)
    } else {
        printable_table(key[0])
    }
}

/// The Windows virtual key code for a DOM `key`/`code` pair.
pub open spec fn virtual_key_spec(key: Seq<char>, code: Seq<char>) -> Option<i64> {
    match named_key_spec(key) {
        Some(v) => Some(v),
        None => match physical_spec(code) {
            Some(v) => Some(v),
            None => printable_spec(key),
        },
    }
}

/// Windows virtual key code for a DOM `key`/`code` pair, when one is known.
///
/// `key` is consulted first so a named key resolves the same way whatever
/// produced it, then `code` for the physical keys whose character depends on
/// modifiers, and finally the printable character itself.
pub fn virtual_key_code(key: &str, code: &str) -> (r: Option<i64>)
    ensures
        r == virtual_key_spec(key@, code@),
{
    let k = chars_of(key);
    let c = chars_of(code);
    match named_key_code(k.as_slice()) {
        Some(v) => Some(v),
        None => match physical_code(c.as_slice()) {
            Some(v) => Some(v),
            None => printable_key_code(k.as_slice()),
        },
    }
}

/// Whether a key event should also carry text, and what that text is.
pub fn key_text(key: &str) -> (r: Option<&'static str>)
    ensures
        key@ == "Enter"@ ==> r == Some("\r"),
        key@ != "Enter"@ && key@ == "Tab"@ ==> r == Some("\t"),
        key@ != "Enter"@ && key@ != "Tab"@ ==> r is None,
{
    if str_eq(key, "Enter") {
        Some("\r")
    } else if str_eq(key, "Tab") {
        Some("\t")
    } else {
        None
    }
}

fn lit_eq(s: &[char], lit: &str) -> (r: bool)
    ensures
        r == (s@ == lit@),
{
    let l = chars_of(lit);
    chars_eq(s, l.as_slice())
}

fn named_key_code(key: &[char]) -> (r: Option<i64>)
    ensures
        r == named_key_spec(key@),
{
    let v: i64 = if lit_eq(key, "Backspace") { 8 }
    else if lit_eq(key, "Tab") { 9 }
    else if lit_eq(key, "Clear") { 12 }
    else if lit_eq(key, "Enter") { 13 }
    else if lit_eq(key, "Shift") { 16 }
    else if lit_eq(key, "Control") { 17 }
    else if lit_eq(key, "Alt") { 18 }
    else if lit_eq(key, "Pause") { 19 }
    else if lit_eq(key, "CapsLock") { 20 }
    else if lit_eq(key, "Escape") { 27 }
    else if lit_eq(key, " ") || lit_eq(key, "Spacebar") { 32 }
    else if lit_eq(key, "PageUp") { 33 }
    else if lit_eq(key, "PageDown") { 34 }
    else if lit_eq(key, "End") { 35 }
    else if lit_eq(key, "Home") { 36 }
    else if lit_eq(key, "ArrowLeft") { 37 }
    else if lit_eq(key, "ArrowUp") { 38 }
    else if lit_eq(key, "ArrowRight") { 39 }
    else if lit_eq(key, "ArrowDown") { 40 }
    else if lit_eq(key, "PrintScreen") { 44 }
    else if lit_eq(key, "Insert") { 45 }
    else if lit_eq(key, "Delete") { 46 }
    else if lit_eq(key, "Meta") || lit_eq(key, "OS") { 91 }
    else if lit_eq(key, "ContextMenu") { 93 }
    else if lit_eq(key, "NumLock") { 144 }
    else if lit_eq(key, "ScrollLock") { 145 }
    else { return function_key_code(key); };
    Some(v)
}

fn function_key_code(key: &[char]) -> (r: Option<i64>)
    ensures
        r == function_key_spec(key@),
{
    if key.len() == 0 || key[0] != 'F' {
        return None;
    }
    let rest = &key[1..key.len()];
    assert(rest@ =~= key@.drop_first());
    match parse_unsigned(rest, 0xffff_ffff) {
        Some(n) => {
            if 1 <= n && n <= 24 {
                Some(111 + n as i64)
            } else {
                None
            }
        },
        None => None,
    }
}

fn physical_code(code: &[char]) -> (r: Option<i64>)
    ensures
        r == physical_spec(code@),
{
    proof {
        reveal_strlit("Digit");
        reveal_strlit("Key");
        reveal_strlit("Numpad");
    }
    let digit_prefix = chars_of("Digit");
    if starts_with_exec(code, digit_prefix.as_slice()) {
        let rest = &code[5..code.len()];
        return match single_ascii_digit(rest) {
            Some(v) => Some(v as i64),
            None => None,
        };
    }
    let key_prefix = chars_of("Key");
    if starts_with_exec(code, key_prefix.as_slice()) {
        let rest = &code[3..code.len()];
        return match single_ascii_upper(rest) {
            Some(v) => Some(v as i64),
            None => None,
        };
    }
    let numpad_prefix = chars_of("Numpad");
    if starts_with_exec(code, numpad_prefix.as_slice()) {
        let rest = &code[6..code.len()];
        if let Some(value) = single_ascii_digit(rest) {
            return Some(value as i64 - 48 + 96);
        }
    }
    let v: i64 = if lit_eq(code, "NumpadMultiply") { 106 }
    else if lit_eq(code, "NumpadAdd") { 107 }
    else if lit_eq(code, "NumpadSubtract") { 109 }
    else if lit_eq(code, "NumpadDecimal") { 110 }
    else if lit_eq(code, "NumpadDivide") { 111 }
    else if lit_eq(code, "NumpadEnter") { 13 }
    else if lit_eq(code, "Semicolon") { 186 }
    else if lit_eq(code, "Equal") { 187 }
    else if lit_eq(code, "Comma") { 188 }
    else if lit_eq(code, "Minus") { 189 }
    else if lit_eq(code, "Period") { 190 }
    else if lit_eq(code, "Slash") { 191 }
    else if lit_eq(code, "Backquote") { 192 }
    else if lit_eq(code, "BracketLeft") { 219 }
    else if lit_eq(code, "Backslash") || lit_eq(code, "IntlBackslash") { 220 }
    else if lit_eq(code, "BracketRight") { 221 }
    else if lit_eq(code, "Quote") { 222 }
    else { return None; };
    Some(v)
}

fn printable_key_code(key: &[char]) -> (r: Option<i64>)
    ensures
        r == printable_spec(key@),
{
    if key.len() != 1 {
        return None;
    }
    let c = key[0];
    if ('a' <= c && c <= 'z') {
        return Some((c as u32 - 32) as i64);
    }
    if ('A' <= c && c <= 'Z') || ('0' <= c && c <= '9') {
        return Some(c as u32 as i64);
    }
    let v: i64 = if c == ' ' { 32 }
    else if c == ';' || c == ':' { 186 }
    else if c == '=' || c == '+' { 187 }
    else if c == ',' || c == '<' { 188 }
    else if c == '-' || c == '_' { 189 }
    else if c == '.' || c == '>' { 190 }
    else if c == '/' || c == '?' { 191 }
    else if c == '`' || c == '~' { 192 }
    else if c == '[' || c == '{' { 219 }
    else if c == '\\' || c == '|' { 220 }
    else if c == ']' || c == '}' { 221 }
    else if c == '\'' || c == '"' { 222 }
    else if c == '!' { 49 }
    else if c == '@' { 50 }
    else if c == '#' { 51 }
    else if c == '$' { 52 }
    else if c == '%' { 53 }
    else if c == '^' { 54 }
    else if c == '&' { 55 }
    else if c == '*' { 56 }
    else if c == '(' { 57 }
    else if c == ')' { 48 }
    else { return None; };
    Some(v)
}

fn single_ascii_digit(value: &[char]) -> (r: Option<u8>)
    ensures
        r == single_digit_spec(value@),
{
    if value.len() != 1 || !('0' <= value[0] && value[0] <= '9') {
        return None;
    }
    Some(value[0] as u32 as u8)
}

fn single_ascii_upper(value: &[char]) -> (r: Option<u8>)
    ensures
        r == single_upper_spec(value@),
{
    if value.len() != 1 {
        return None;
    }
    let c = value[0];
    if 'a' <= c && c <= 'z' {
        Some((c as u32 - 32) as u8)
    } else if 'A' <= c && c <= 'Z' {
        Some(c as u32 as u8)
    } else {
        None
    }
}

/// Every virtual key code this mapping yields lies between Backspace (8)
/// and Quote (222).
pub proof fn law_virtual_key_codes_stay_in_range(key: Seq<char>, code: Seq<char>)
    ensures
        virtual_key_spec(key, code) matches Some(v) ==> 8 <= v <= 222,
{
    if starts_with(code, "Digit"@) {
        let rest = code.subrange(5, code.len() as int);
        if rest.len() == 1 && is_ascii_digit(rest[0]) {
            assert(48 <= rest[0] as u8 <= 57);
        }
    } else if starts_with(code, "Key"@) {
        let rest = code.subrange(3, code.len() as int);
        if rest.len() == 1 && is_ascii_alpha(rest[0]) {
            assert(65 <= ascii_upper_of(rest[0]) as u8 <= 90);
        }
    } else if starts_with(code, "Numpad"@) {
        let rest = code.subrange(6, code.len() as int);
        if rest.len() == 1 && is_ascii_digit(rest[0]) {
            assert(48 <= rest[0] as u8 <= 57);
        }
    }
    if key.len() == 1 && (is_ascii_alpha(key[0]) || is_ascii_digit(key[0])) {
        assert(48 <= ascii_upper_of(key[0]) as u8 <= 90);
    }
    if key.len() > 0 && key[0] == 'F' {
        match parse_unsigned_spec(key.drop_first(), u32::MAX as nat) {
            Some(n) => {},
            None => {},
        }
    }
}

/// Two DOM key names that name one key: the same name; the space bar under
/// either of its names; the OS key under either of its names; or a function
/// key, however its number is written.
pub open spec fn same_named_key(a: Seq<char>, b: Seq<char>) -> bool {
    ||| a == b
    ||| (a == " "@ || a == "Spacebar"@) && (b == " "@ || b == "Spacebar"@)
    ||| (a == "Meta"@ || a == "OS"@) && (b == "Meta"@ || b == "OS"@)
    ||| (a.len() > 0 && b.len() > 0 && a[0] == 'F' && b[0] == 'F'
        && parse_unsigned_spec(a.drop_first(), u32::MAX as nat) == parse_unsigned_spec(b.drop_first(), u32::MAX as nat))
}

/// Distinct named keys never share a virtual key code, whatever physical
/// `code` accompanies them: two named keys with one code are one key under
/// its documented names.
pub proof fn law_named_keys_have_distinct_codes(a: Seq<char>, b: Seq<char>, code_a: Seq<char>, code_b: Seq<char>)
    requires
        named_key_spec(a) is Some,
        named_key_spec(b) is Some,
        virtual_key_spec(a, code_a) == virtual_key_spec(b, code_b),
    ensures
        same_named_key(a, b),
{
}

/// The navigation and editing keys carry their US-layout codes, whatever
/// physical `code` accompanies them: the arrows are 37 to 40 in the order
/// left, up, right, down, right after Page Up, Page Down, End and Home at
/// 33 to 36; Backspace is 8, Tab 9, Enter 13, Escape 27, the space bar 32,
/// Insert 45 and Delete 46.
pub proof fn law_editing_keys_carry_their_codes(code: Seq<char>)
    ensures
        virtual_key_spec("ArrowLeft"@, code) == Some(37i64),
        virtual_key_spec("ArrowUp"@, code) == Some(38i64),
        virtual_key_spec("ArrowRight"@, code) == Some(39i64),
        virtual_key_spec("ArrowDown"@, code) == Some(40i64),
        virtual_key_spec("PageUp"@, code) == Some(33i64),
        virtual_key_spec("PageDown"@, code) == Some(34i64),
        virtual_key_spec("End"@, code) == Some(35i64),
        virtual_key_spec("Home"@, code) == Some(36i64),
        virtual_key_spec("Backspace"@, code) == Some(8i64),
        virtual_key_spec("Tab"@, code) == Some(9i64),
        virtual_key_spec("Enter"@, code) == Some(13i64),
        virtual_key_spec("Escape"@, code) == Some(27i64),
        virtual_key_spec(" "@, code) == Some(32i64),
        virtual_key_spec("Insert"@, code) == Some(45i64),
        virtual_key_spec("Delete"@, code) == Some(46i64),
{
    reveal_strlit("Backspace");
    reveal_strlit("Tab");
    reveal_strlit("Clear");
    reveal_strlit("Enter");
    reveal_strlit("Shift");
    reveal_strlit("Control");
    reveal_strlit("Alt");
    reveal_strlit("Pause");
    reveal_strlit("CapsLock");
    reveal_strlit("Escape");
    reveal_strlit(" ");
    reveal_strlit("Spacebar");
    reveal_strlit("PageUp");
    reveal_strlit("PageDown");
    reveal_strlit("End");
    reveal_strlit("Home");
    reveal_strlit("ArrowLeft");
    reveal_strlit("ArrowUp");
    reveal_strlit("ArrowRight");
    reveal_strlit("ArrowDown");
    reveal_strlit("PrintScreen");
    reveal_strlit("Insert");
    reveal_strlit("Delete");
    reveal_strlit("Meta");
    reveal_strlit("OS");
    reveal_strlit("ContextMenu");
    reveal_strlit("NumLock");
    reveal_strlit("ScrollLock");
    assert("ArrowLeft"@[0] != "Backspace"@[0]);
    assert("ArrowLeft"@.len() != "Tab"@.len());
    assert("ArrowLeft"@.len() != "Clear"@.len());
    assert("ArrowLeft"@.len() != "Enter"@.len());
    assert("ArrowLeft"@.len() != "Shift"@.len());
    assert("ArrowLeft"@.len() != "Control"@.len());
    assert("ArrowLeft"@.len() != "Alt"@.len());
    assert("ArrowLeft"@.len() != "Pause"@.len());
    assert("ArrowLeft"@.len() != "CapsLock"@.len());
    assert("ArrowLeft"@.len() != "Escape"@.len());
    assert("ArrowLeft"@.len() != " "@.len());
    assert("ArrowLeft"@.len() != "Spacebar"@.len());
    assert("ArrowLeft"@.len() != "PageUp"@.len());
    assert("ArrowLeft"@.len() != "PageDown"@.len());
    assert("ArrowLeft"@.len() != "End"@.len());
    assert("ArrowLeft"@.len() != "Home"@.len());
    assert("ArrowUp"@.len() != "Backspace"@.len());
    assert("ArrowUp"@.len() != "Tab"@.len());
    assert("ArrowUp"@.len() != "Clear"@.len());
    assert("ArrowUp"@.len() != "Enter"@.len());
    assert("ArrowUp"@.len() != "Shift"@.len());
    assert("ArrowUp"@[0] != "Control"@[0]);
    assert("ArrowUp"@.len() != "Alt"@.len());
    assert("ArrowUp"@.len() != "Pause"@.len());
    assert("ArrowUp"@.len() != "CapsLock"@.len());
    assert("ArrowUp"@.len() != "Escape"@.len());
    assert("ArrowUp"@.len() != " "@.len());
    assert("ArrowUp"@.len() != "Spacebar"@.len());
    assert("ArrowUp"@.len() != "PageUp"@.len());
    assert("ArrowUp"@.len() != "PageDown"@.len());
    assert("ArrowUp"@.len() != "End"@.len());
    assert("ArrowUp"@.len() != "Home"@.len());
    assert("ArrowUp"@.len() != "ArrowLeft"@.len());
    assert("ArrowRight"@.len() != "Backspace"@.len());
    assert("ArrowRight"@.len() != "Tab"@.len());
    assert("ArrowRight"@.len() != "Clear"@.len());
    assert("ArrowRight"@.len() != "Enter"@.len());
    assert("ArrowRight"@.len() != "Shift"@.len());
    assert("ArrowRight"@.len() != "Control"@.len());
    assert("ArrowRight"@.len() != "Alt"@.len());
    assert("ArrowRight"@.len() != "Pause"@.len());
    assert("ArrowRight"@.len() != "CapsLock"@.len());
    assert("ArrowRight"@.len() != "Escape"@.len());
    assert("ArrowRight"@.len() != " "@.len());
    assert("ArrowRight"@.len() != "Spacebar"@.len());
    assert("ArrowRight"@.len() != "PageUp"@.len());
    assert("ArrowRight"@.len() != "PageDown"@.len());
    assert("ArrowRight"@.len() != "End"@.len());
    assert("ArrowRight"@.len() != "Home"@.len());
    assert("ArrowRight"@.len() != "ArrowLeft"@.len());
    assert("ArrowRight"@.len() != "ArrowUp"@.len());
    assert("ArrowDown"@[0] != "Backspace"@[0]);
    assert("ArrowDown"@.len() != "Tab"@.len());
    assert("ArrowDown"@.len() != "Clear"@.len());
    assert("ArrowDown"@.len() != "Enter"@.len());
    assert("ArrowDown"@.len() != "Shift"@.len());
    assert("ArrowDown"@.len() != "Control"@.len());
    assert("ArrowDown"@.len() != "Alt"@.len());
    assert("ArrowDown"@.len() != "Pause"@.len());
    assert("ArrowDown"@.len() != "CapsLock"@.len());
    assert("ArrowDown"@.len() != "Escape"@.len());
    assert("ArrowDown"@.len() != " "@.len());
    assert("ArrowDown"@.len() != "Spacebar"@.len());
    assert("ArrowDown"@.len() != "PageUp"@.len());
    assert("ArrowDown"@.len() != "PageDown"@.len());
    assert("ArrowDown"@.len() != "End"@.len());
    assert("ArrowDown"@.len() != "Home"@.len());
    assert("ArrowDown"@[5] != "ArrowLeft"@[5]);
    assert("ArrowDown"@.len() != "ArrowUp"@.len());
    assert("ArrowDown"@.len() != "ArrowRight"@.len());
    assert("PageUp"@.len() != "Backspace"@.len());
    assert("PageUp"@.len() != "Tab"@.len());
    assert("PageUp"@.len() != "Clear"@.len());
    assert("PageUp"@.len() != "Enter"@.len());
    assert("PageUp"@.len() != "Shift"@.len());
    assert("PageUp"@.len() != "Control"@.len());
    assert("PageUp"@.len() != "Alt"@.len());
    assert("PageUp"@.len() != "Pause"@.len());
    assert("PageUp"@.len() != "CapsLock"@.len());
    assert("PageUp"@[0] != "Escape"@[0]);
    assert("PageUp"@.len() != " "@.len());
    assert("PageUp"@.len() != "Spacebar"@.len());
    assert("PageDown"@.len() != "Backspace"@.len());
    assert("PageDown"@.len() != "Tab"@.len());
    assert("PageDown"@.len() != "Clear"@.len());
    assert("PageDown"@.len() != "Enter"@.len());
    assert("PageDown"@.len() != "Shift"@.len());
    assert("PageDown"@.len() != "Control"@.len());
    assert("PageDown"@.len() != "Alt"@.len());
    assert("PageDown"@.len() != "Pause"@.len());
    assert("PageDown"@[0] != "CapsLock"@[0]);
    assert("PageDown"@.len() != "Escape"@.len());
    assert("PageDown"@.len() != " "@.len());
    assert("PageDown"@[0] != "Spacebar"@[0]);
    assert("PageDown"@.len() != "PageUp"@.len());
    assert("End"@.len() != "Backspace"@.len());
    assert("End"@[0] != "Tab"@[0]);
    assert("End"@.len() != "Clear"@.len());
    assert("End"@.len() != "Enter"@.len());
    assert("End"@.len() != "Shift"@.len());
    assert("End"@.len() != "Control"@.len());
    assert("End"@[0] != "Alt"@[0]);
    assert("End"@.len() != "Pause"@.len());
    assert("End"@.len() != "CapsLock"@.len());
    assert("End"@.len() != "Escape"@.len());
    assert("End"@.len() != " "@.len());
    assert("End"@.len() != "Spacebar"@.len());
    assert("End"@.len() != "PageUp"@.len());
    assert("End"@.len() != "PageDown"@.len());
    assert("Home"@.len() != "Backspace"@.len());
    assert("Home"@.len() != "Tab"@.len());
    assert("Home"@.len() != "Clear"@.len());
    assert("Home"@.len() != "Enter"@.len());
    assert("Home"@.len() != "Shift"@.len());
    assert("Home"@.len() != "Control"@.len());
    assert("Home"@.len() != "Alt"@.len());
    assert("Home"@.len() != "Pause"@.len());
    assert("Home"@.len() != "CapsLock"@.len());
    assert("Home"@.len() != "Escape"@.len());
    assert("Home"@.len() != " "@.len());
    assert("Home"@.len() != "Spacebar"@.len());
    assert("Home"@.len() != "PageUp"@.len());
    assert("Home"@.len() != "PageDown"@.len());
    assert("Home"@.len() != "End"@.len());
    assert("Tab"@.len() != "Backspace"@.len());
    assert("Enter"@.len() != "Backspace"@.len());
    assert("Enter"@.len() != "Tab"@.len());
    assert("Enter"@[0] != "Clear"@[0]);
    assert("Escape"@.len() != "Backspace"@.len());
    assert("Escape"@.len() != "Tab"@.len());
    assert("Escape"@.len() != "Clear"@.len());
    assert("Escape"@.len() != "Enter"@.len());
    assert("Escape"@.len() != "Shift"@.len());
    assert("Escape"@.len() != "Control"@.len());
    assert("Escape"@.len() != "Alt"@.len());
    assert("Escape"@.len() != "Pause"@.len());
    assert("Escape"@.len() != "CapsLock"@.len());
    assert(" "@.len() != "Backspace"@.len());
    assert(" "@.len() != "Tab"@.len());
    assert(" "@.len() != "Clear"@.len());
    assert(" "@.len() != "Enter"@.len());
    assert(" "@.len() != "Shift"@.len());
    assert(" "@.len() != "Control"@.len());
    assert(" "@.len() != "Alt"@.len());
    assert(" "@.len() != "Pause"@.len());
    assert(" "@.len() != "CapsLock"@.len());
    assert(" "@.len() != "Escape"@.len());
    assert("Insert"@.len() != "Backspace"@.len());
    assert("Insert"@.len() != "Tab"@.len());
    assert("Insert"@.len() != "Clear"@.len());
    assert("Insert"@.len() != "Enter"@.len());
    assert("Insert"@.len() != "Shift"@.len());
    assert("Insert"@.len() != "Control"@.len());
    assert("Insert"@.len() != "Alt"@.len());
    assert("Insert"@.len() != "Pause"@.len());
    assert("Insert"@.len() != "CapsLock"@.len());
    assert("Insert"@[0] != "Escape"@[0]);
    assert("Insert"@.len() != " "@.len());
    assert("Insert"@.len() != "Spacebar"@.len());
    assert("Insert"@[0] != "PageUp"@[0]);
    assert("Insert"@.len() != "PageDown"@.len());
    assert("Insert"@.len() != "End"@.len());
    assert("Insert"@.len() != "Home"@.len());
    assert("Insert"@.len() != "ArrowLeft"@.len());
    assert("Insert"@.len() != "ArrowUp"@.len());
    assert("Insert"@.len() != "ArrowRight"@.len());
    assert("Insert"@.len() != "ArrowDown"@.len());
    assert("Insert"@.len() != "PrintScreen"@.len());
    assert("Delete"@.len() != "Backspace"@.len());
    assert("Delete"@.len() != "Tab"@.len());
    assert("Delete"@.len() != "Clear"@.len());
    assert("Delete"@.len() != "Enter"@.len());
    assert("Delete"@.len() != "Shift"@.len());
    assert("Delete"@.len() != "Control"@.len());
    assert("Delete"@.len() != "Alt"@.len());
    assert("Delete"@.len() != "Pause"@.len());
    assert("Delete"@.len() != "CapsLock"@.len());
    assert("Delete"@[0] != "Escape"@[0]);
    assert("Delete"@.len() != " "@.len());
    assert("Delete"@.len() != "Spacebar"@.len());
    assert("Delete"@[0] != "PageUp"@[0]);
    assert("Delete"@.len() != "PageDown"@.len());
    assert("Delete"@.len() != "End"@.len());
    assert("Delete"@.len() != "Home"@.len());
    assert("Delete"@.len() != "ArrowLeft"@.len());
    assert("Delete"@.len() != "ArrowUp"@.len());
    assert("Delete"@.len() != "ArrowRight"@.len());
    assert("Delete"@.len() != "ArrowDown"@.len());
    assert("Delete"@.len() != "PrintScreen"@.len());
    assert("Delete"@[0] != "Insert"@[0]);
}

/// Physical letter and digit keys carry the code of their character on the
/// US layout, whatever character the modifiers made of them: `KeyA` to
/// `KeyZ` are 65 to 90 in alphabetical order, `Digit0` to `Digit9` are 48 to
/// 57, and the numpad digits are 96 to 105; a bare printable key with no
/// known `code` is the same code for either case of a letter. A named key
/// keeps its own code.
pub proof fn law_letters_and_digits_carry_their_codes(key: Seq<char>, c: char)
    requires
        named_key_spec(key) is None,
    ensures
        'a' <= c <= 'z' ==> virtual_key_spec(key, "Key"@ + seq![c]) == Some((65 + (c as int - 'a' as int)) as i64),
        'A' <= c <= 'Z' ==> virtual_key_spec(key, "Key"@ + seq![c]) == Some((65 + (c as int - 'A' as int)) as i64),
        '0' <= c <= '9' ==> virtual_key_spec(key, "Digit"@ + seq![c]) == Some((48 + (c as int - '0' as int)) as i64),
        '0' <= c <= '9' ==> virtual_key_spec(key, "Numpad"@ + seq![c]) == Some((96 + (c as int - '0' as int)) as i64),
        'a' <= c <= 'z' ==> virtual_key_spec(seq![c], ""@) == Some((65 + (c as int - 'a' as int)) as i64)
            && virtual_key_spec(seq![c], ""@) == virtual_key_spec(seq![((c as u32) - 32) as char], ""@),
{
    reveal_strlit("Key");
    reveal_strlit("Digit");
    reveal_strlit("Numpad");
    reveal_strlit("");
    let k = "Key"@ + seq![c];
    let d = "Digit"@ + seq![c];
    let n = "Numpad"@ + seq![c];
    assert(k.subrange(0, 3) =~= "Key"@);
    assert(k.subrange(3, k.len() as int) =~= seq![c]);
    assert(k[0] != "Digit"@[0]);
    assert(!starts_with(k, "Digit"@)) by {
        if k.len() >= 5 { assert(k.subrange(0, 5)[0] != "Digit"@[0]); }
    }
    assert(d.subrange(0, 5) =~= "Digit"@);
    assert(d.subrange(5, d.len() as int) =~= seq![c]);
    assert(!starts_with(n, "Digit"@)) by {
        assert(n.subrange(0, 5)[0] != "Digit"@[0]);
    }
    assert(!starts_with(n, "Key"@)) by {
        assert(n.subrange(0, 3)[0] != "Key"@[0]);
    }
    assert(n.subrange(0, 6) =~= "Numpad"@);
    assert(n.subrange(6, n.len() as int) =~= seq![c]);
    let e = Seq::<char>::empty();
    assert(""@ =~= e);
    assert(!starts_with(e, "Digit"@) && !starts_with(e, "Key"@) && !starts_with(e, "Numpad"@));
    if 'a' <= c <= 'z' {
        let up = ((c as u32) - 32) as char;
        assert(seq![c][0] == c);
        assert(seq![up][0] == up);
        assert(named_key_spec(seq![c]) is None) by {
            lemma_single_char_is_not_named(c);
        }
        assert(named_key_spec(seq![up]) is None) by {
            lemma_single_char_is_not_named(up);
        }
        assert(physical_table(e) is None) by {
            reveal_strlit("NumpadMultiply");
            assert(e.len() != "NumpadMultiply"@.len());
            reveal_strlit("NumpadAdd");
            assert(e.len() != "NumpadAdd"@.len());
            reveal_strlit("NumpadSubtract");
            assert(e.len() != "NumpadSubtract"@.len());
            reveal_strlit("NumpadDecimal");
            assert(e.len() != "NumpadDecimal"@.len());
            reveal_strlit("NumpadDivide");
            assert(e.len() != "NumpadDivide"@.len());
            reveal_strlit("NumpadEnter");
            assert(e.len() != "NumpadEnter"@.len());
            reveal_strlit("Semicolon");
            assert(e.len() != "Semicolon"@.len());
            reveal_strlit("Equal");
            assert(e.len() != "Equal"@.len());
            reveal_strlit("Comma");
            assert(e.len() != "Comma"@.len());
            reveal_strlit("Minus");
            assert(e.len() != "Minus"@.len());
            reveal_strlit("Period");
            assert(e.len() != "Period"@.len());
            reveal_strlit("Slash");
            assert(e.len() != "Slash"@.len());
            reveal_strlit("Backquote");
            assert(e.len() != "Backquote"@.len());
            reveal_strlit("BracketLeft");
            assert(e.len() != "BracketLeft"@.len());
            reveal_strlit("Backslash");
            assert(e.len() != "Backslash"@.len());
            reveal_strlit("IntlBackslash");
            assert(e.len() != "IntlBackslash"@.len());
            reveal_strlit("BracketRight");
            assert(e.len() != "BracketRight"@.len());
            reveal_strlit("Quote");
            assert(e.len() != "Quote"@.len());
        }
        assert(physical_spec(e) is None);
        assert(printable_spec(seq![c]) == Some(ascii_upper_of(c) as u8 as i64));
        assert(ascii_upper_of(c) == up);
        assert(printable_spec(seq![up]) == Some(up as u8 as i64));
        assert((up as u8 as i64) == (65 + (c as int - 'a' as int)) as i64);
        assert(virtual_key_spec(seq![c], e) == Some(up as u8 as i64));
        assert(virtual_key_spec(seq![up], e) == Some(up as u8 as i64));
    }
}

proof fn lemma_single_char_is_not_named(c: char)
    requires
        ('a' <= c <= 'z') || ('A' <= c <= 'Z'),
    ensures
        named_key_spec(seq![c]) is None,
{
    reveal_strlit("Backspace");
    reveal_strlit("Tab");
    reveal_strlit("Clear");
    reveal_strlit("Enter");
    reveal_strlit("Shift");
    reveal_strlit("Control");
    reveal_strlit("Alt");
    reveal_strlit("Pause");
    reveal_strlit("CapsLock");
    reveal_strlit("Escape");
    reveal_strlit(" ");
    reveal_strlit("Spacebar");
    reveal_strlit("PageUp");
    reveal_strlit("PageDown");
    reveal_strlit("End");
    reveal_strlit("Home");
    reveal_strlit("ArrowLeft");
    reveal_strlit("ArrowUp");
    reveal_strlit("ArrowRight");
    reveal_strlit("ArrowDown");
    reveal_strlit("PrintScreen");
    reveal_strlit("Insert");
    reveal_strlit("Delete");
    reveal_strlit("Meta");
    reveal_strlit("OS");
    reveal_strlit("ContextMenu");
    reveal_strlit("NumLock");
    reveal_strlit("ScrollLock");
    assert(" "@.len() == 1 && " "@[0] == ' ');
    assert(seq![c] != " "@) by { assert(seq![c][0] != " "@[0]); }
    assert(seq![c].len() != "Backspace"@.len());
    assert(seq![c].len() != "Tab"@.len());
    assert(seq![c].len() != "Clear"@.len());
    assert(seq![c].len() != "Enter"@.len());
    assert(seq![c].len() != "Shift"@.len());
    assert(seq![c].len() != "Control"@.len());
    assert(seq![c].len() != "Alt"@.len());
    assert(seq![c].len() != "Pause"@.len());
    assert(seq![c].len() != "CapsLock"@.len());
    assert(seq![c].len() != "Escape"@.len());
    assert(seq![c].len() != "Spacebar"@.len());
    assert(seq![c].len() != "PageUp"@.len());
    assert(seq![c].len() != "PageDown"@.len());
    assert(seq![c].len() != "End"@.len());
    assert(seq![c].len() != "Home"@.len());
    assert(seq![c].len() != "ArrowLeft"@.len());
    assert(seq![c].len() != "ArrowUp"@.len());
    assert(seq![c].len() != "ArrowRight"@.len());
    assert(seq![c].len() != "ArrowDown"@.len());
    assert(seq![c].len() != "PrintScreen"@.len());
    assert(seq![c].len() != "Insert"@.len());
    assert(seq![c].len() != "Delete"@.len());
    assert(seq![c].len() != "Meta"@.len());
    assert(seq![c].len() != "OS"@.len());
    assert(seq![c].len() != "ContextMenu"@.len());
    assert(seq![c].len() != "NumLock"@.len());
    assert(seq![c].len() != "ScrollLock"@.len());
    assert(seq![c].drop_first() =~= Seq::<char>::empty());
}

/// The function keys `F1` to `F24` carry the contiguous codes from 112, in
/// order, whatever physical `code` accompanies them.
pub proof fn law_function_keys_are_contiguous(n: nat, code: Seq<char>)
    requires
        1 <= n <= 24,
    ensures
        virtual_key_spec(seq!['F'] + crate::text::decimal_chars(n), code) == Some((111 + n) as i64),
{
    let digits = crate::text::decimal_chars(n);
    let key = seq!['F'] + digits;
    crate::text::lemma_decimal_round_trip(n);
    if n >= 10 {
        assert(digits == crate::text::decimal_chars(n / 10).push(crate::text::digit_char(n % 10)));
        assert(crate::text::decimal_chars(n / 10).len() == 1);
    }
    assert(2 <= key.len() <= 3);
    assert(key[0] == 'F');
    assert(key.drop_first() =~= digits);
    assert(crate::text::is_ascii_digit(digits[0]));
    reveal_strlit("Backspace");
    assert(key.len() != "Backspace"@.len());
    reveal_strlit("Tab");
    assert(key[0] != "Tab"@[0]);
    reveal_strlit("Clear");
    assert(key.len() != "Clear"@.len());
    reveal_strlit("Enter");
    assert(key.len() != "Enter"@.len());
    reveal_strlit("Shift");
    assert(key.len() != "Shift"@.len());
    reveal_strlit("Control");
    assert(key.len() != "Control"@.len());
    reveal_strlit("Alt");
    assert(key[0] != "Alt"@[0]);
    reveal_strlit("Pause");
    assert(key.len() != "Pause"@.len());
    reveal_strlit("CapsLock");
    assert(key.len() != "CapsLock"@.len());
    reveal_strlit("Escape");
    assert(key.len() != "Escape"@.len());
    reveal_strlit(" ");
    assert(key.len() != " "@.len());
    reveal_strlit("Spacebar");
    assert(key.len() != "Spacebar"@.len());
    reveal_strlit("PageUp");
    assert(key.len() != "PageUp"@.len());
    reveal_strlit("PageDown");
    assert(key.len() != "PageDown"@.len());
    reveal_strlit("End");
    assert(key[0] != "End"@[0]);
    reveal_strlit("Home");
    assert(key.len() != "Home"@.len());
    reveal_strlit("ArrowLeft");
    assert(key.len() != "ArrowLeft"@.len());
    reveal_strlit("ArrowUp");
    assert(key.len() != "ArrowUp"@.len());
    reveal_strlit("ArrowRight");
    assert(key.len() != "ArrowRight"@.len());
    reveal_strlit("ArrowDown");
    assert(key.len() != "ArrowDown"@.len());
    reveal_strlit("PrintScreen");
    assert(key.len() != "PrintScreen"@.len());
    reveal_strlit("Insert");
    assert(key.len() != "Insert"@.len());
    reveal_strlit("Delete");
    assert(key.len() != "Delete"@.len());
    reveal_strlit("Meta");
    assert(key.len() != "Meta"@.len());
    reveal_strlit("OS");
    assert(key[0] != "OS"@[0]);
    reveal_strlit("ContextMenu");
    assert(key.len() != "ContextMenu"@.len());
    reveal_strlit("NumLock");
    assert(key.len() != "NumLock"@.len());
    reveal_strlit("ScrollLock");
    assert(key.len() != "ScrollLock"@.len());
}

/// The modifier, lock and system keys carry their US-layout codes, whatever
/// physical `code` accompanies them: Clear 12; Shift, Control, Alt, Pause
/// and Caps Lock 16 to 20; the space bar under its old name 32; Print
/// Screen 44; the OS key under either name 91; the context menu 93; Num
/// Lock and Scroll Lock 144 and 145.
pub proof fn law_modifier_and_lock_keys_carry_their_codes(code: Seq<char>)
    ensures
        virtual_key_spec("Clear"@, code) == Some(12i64),
        virtual_key_spec("Shift"@, code) == Some(16i64),
        virtual_key_spec("Control"@, code) == Some(17i64),
        virtual_key_spec("Alt"@, code) == Some(18i64),
        virtual_key_spec("Pause"@, code) == Some(19i64),
        virtual_key_spec("CapsLock"@, code) == Some(20i64),
        virtual_key_spec("Spacebar"@, code) == Some(32i64),
        virtual_key_spec("PrintScreen"@, code) == Some(44i64),
        virtual_key_spec("Meta"@, code) == Some(91i64),
        virtual_key_spec("OS"@, code) == Some(91i64),
        virtual_key_spec("ContextMenu"@, code) == Some(93i64),
        virtual_key_spec("NumLock"@, code) == Some(144i64),
        virtual_key_spec("ScrollLock"@, code) == Some(145i64),
{
    reveal_strlit("Backspace");
    reveal_strlit("Tab");
    reveal_strlit("Clear");
    reveal_strlit("Enter");
    reveal_strlit("Shift");
    reveal_strlit("Control");
    reveal_strlit("Alt");
    reveal_strlit("Pause");
    reveal_strlit("CapsLock");
    reveal_strlit("Escape");
    reveal_strlit(" ");
    reveal_strlit("Spacebar");
    reveal_strlit("PageUp");
    reveal_strlit("PageDown");
    reveal_strlit("End");
    reveal_strlit("Home");
    reveal_strlit("ArrowLeft");
    reveal_strlit("ArrowUp");
    reveal_strlit("ArrowRight");
    reveal_strlit("ArrowDown");
    reveal_strlit("PrintScreen");
    reveal_strlit("Insert");
    reveal_strlit("Delete");
    reveal_strlit("Meta");
    reveal_strlit("OS");
    reveal_strlit("ContextMenu");
    reveal_strlit("NumLock");
    reveal_strlit("ScrollLock");
    assert("Clear"@.len() != "Backspace"@.len());
    assert("Clear"@.len() != "Tab"@.len());
    assert("Shift"@.len() != "Backspace"@.len());
    assert("Shift"@.len() != "Tab"@.len());
    assert("Shift"@[0] != "Clear"@[0]);
    assert("Shift"@[0] != "Enter"@[0]);
    assert("Control"@.len() != "Backspace"@.len());
    assert("Control"@.len() != "Tab"@.len());
    assert("Control"@.len() != "Clear"@.len());
    assert("Control"@.len() != "Enter"@.len());
    assert("Control"@.len() != "Shift"@.len());
    assert("Alt"@.len() != "Backspace"@.len());
    assert("Alt"@[0] != "Tab"@[0]);
    assert("Alt"@.len() != "Clear"@.len());
    assert("Alt"@.len() != "Enter"@.len());
    assert("Alt"@.len() != "Shift"@.len());
    assert("Alt"@.len() != "Control"@.len());
    assert("Pause"@.len() != "Backspace"@.len());
    assert("Pause"@.len() != "Tab"@.len());
    assert("Pause"@[0] != "Clear"@[0]);
    assert("Pause"@[0] != "Enter"@[0]);
    assert("Pause"@[0] != "Shift"@[0]);
    assert("Pause"@.len() != "Control"@.len());
    assert("Pause"@.len() != "Alt"@.len());
    assert("CapsLock"@.len() != "Backspace"@.len());
    assert("CapsLock"@.len() != "Tab"@.len());
    assert("CapsLock"@.len() != "Clear"@.len());
    assert("CapsLock"@.len() != "Enter"@.len());
    assert("CapsLock"@.len() != "Shift"@.len());
    assert("CapsLock"@.len() != "Control"@.len());
    assert("CapsLock"@.len() != "Alt"@.len());
    assert("CapsLock"@.len() != "Pause"@.len());
    assert("Spacebar"@.len() != "Backspace"@.len());
    assert("Spacebar"@.len() != "Tab"@.len());
    assert("Spacebar"@.len() != "Clear"@.len());
    assert("Spacebar"@.len() != "Enter"@.len());
    assert("Spacebar"@.len() != "Shift"@.len());
    assert("Spacebar"@.len() != "Control"@.len());
    assert("Spacebar"@.len() != "Alt"@.len());
    assert("Spacebar"@.len() != "Pause"@.len());
    assert("Spacebar"@[0] != "CapsLock"@[0]);
    assert("Spacebar"@.len() != "Escape"@.len());
    assert("Spacebar"@.len() != " "@.len());
    assert("PrintScreen"@.len() != "Backspace"@.len());
    assert("PrintScreen"@.len() != "Tab"@.len());
    assert("PrintScreen"@.len() != "Clear"@.len());
    assert("PrintScreen"@.len() != "Enter"@.len());
    assert("PrintScreen"@.len() != "Shift"@.len());
    assert("PrintScreen"@.len() != "Control"@.len());
    assert("PrintScreen"@.len() != "Alt"@.len());
    assert("PrintScreen"@.len() != "Pause"@.len());
    assert("PrintScreen"@.len() != "CapsLock"@.len());
    assert("PrintScreen"@.len() != "Escape"@.len());
    assert("PrintScreen"@.len() != " "@.len());
    assert("PrintScreen"@.len() != "Spacebar"@.len());
    assert("PrintScreen"@.len() != "PageUp"@.len());
    assert("PrintScreen"@.len() != "PageDown"@.len());
    assert("PrintScreen"@.len() != "End"@.len());
    assert("PrintScreen"@.len() != "Home"@.len());
    assert("PrintScreen"@.len() != "ArrowLeft"@.len());
    assert("PrintScreen"@.len() != "ArrowUp"@.len());
    assert("PrintScreen"@.len() != "ArrowRight"@.len());
    assert("PrintScreen"@.len() != "ArrowDown"@.len());
    assert("Meta"@.len() != "Backspace"@.len());
    assert("Meta"@.len() != "Tab"@.len());
    assert("Meta"@.len() != "Clear"@.len());
    assert("Meta"@.len() != "Enter"@.len());
    assert("Meta"@.len() != "Shift"@.len());
    assert("Meta"@.len() != "Control"@.len());
    assert("Meta"@.len() != "Alt"@.len());
    assert("Meta"@.len() != "Pause"@.len());
    assert("Meta"@.len() != "CapsLock"@.len());
    assert("Meta"@.len() != "Escape"@.len());
    assert("Meta"@.len() != " "@.len());
    assert("Meta"@.len() != "Spacebar"@.len());
    assert("Meta"@.len() != "PageUp"@.len());
    assert("Meta"@.len() != "PageDown"@.len());
    assert("Meta"@.len() != "End"@.len());
    assert("Meta"@[0] != "Home"@[0]);
    assert("Meta"@.len() != "ArrowLeft"@.len());
    assert("Meta"@.len() != "ArrowUp"@.len());
    assert("Meta"@.len() != "ArrowRight"@.len());
    assert("Meta"@.len() != "ArrowDown"@.len());
    assert("Meta"@.len() != "PrintScreen"@.len());
    assert("Meta"@.len() != "Insert"@.len());
    assert("Meta"@.len() != "Delete"@.len());
    assert("OS"@.len() != "Backspace"@.len());
    assert("OS"@.len() != "Tab"@.len());
    assert("OS"@.len() != "Clear"@.len());
    assert("OS"@.len() != "Enter"@.len());
    assert("OS"@.len() != "Shift"@.len());
    assert("OS"@.len() != "Control"@.len());
    assert("OS"@.len() != "Alt"@.len());
    assert("OS"@.len() != "Pause"@.len());
    assert("OS"@.len() != "CapsLock"@.len());
    assert("OS"@.len() != "Escape"@.len());
    assert("OS"@.len() != " "@.len());
    assert("OS"@.len() != "Spacebar"@.len());
    assert("OS"@.len() != "PageUp"@.len());
    assert("OS"@.len() != "PageDown"@.len());
    assert("OS"@.len() != "End"@.len());
    assert("OS"@.len() != "Home"@.len());
    assert("OS"@.len() != "ArrowLeft"@.len());
    assert("OS"@.len() != "ArrowUp"@.len());
    assert("OS"@.len() != "ArrowRight"@.len());
    assert("OS"@.len() != "ArrowDown"@.len());
    assert("OS"@.len() != "PrintScreen"@.len());
    assert("OS"@.len() != "Insert"@.len());
    assert("OS"@.len() != "Delete"@.len());
    assert("OS"@.len() != "Meta"@.len());
    assert("ContextMenu"@.len() != "Backspace"@.len());
    assert("ContextMenu"@.len() != "Tab"@.len());
    assert("ContextMenu"@.len() != "Clear"@.len());
    assert("ContextMenu"@.len() != "Enter"@.len());
    assert("ContextMenu"@.len() != "Shift"@.len());
    assert("ContextMenu"@.len() != "Control"@.len());
    assert("ContextMenu"@.len() != "Alt"@.len());
    assert("ContextMenu"@.len() != "Pause"@.len());
    assert("ContextMenu"@.len() != "CapsLock"@.len());
    assert("ContextMenu"@.len() != "Escape"@.len());
    assert("ContextMenu"@.len() != " "@.len());
    assert("ContextMenu"@.len() != "Spacebar"@.len());
    assert("ContextMenu"@.len() != "PageUp"@.len());
    assert("ContextMenu"@.len() != "PageDown"@.len());
    assert("ContextMenu"@.len() != "End"@.len());
    assert("ContextMenu"@.len() != "Home"@.len());
    assert("ContextMenu"@.len() != "ArrowLeft"@.len());
    assert("ContextMenu"@.len() != "ArrowUp"@.len());
    assert("ContextMenu"@.len() != "ArrowRight"@.len());
    assert("ContextMenu"@.len() != "ArrowDown"@.len());
    assert("ContextMenu"@[0] != "PrintScreen"@[0]);
    assert("ContextMenu"@.len() != "Insert"@.len());
    assert("ContextMenu"@.len() != "Delete"@.len());
    assert("ContextMenu"@.len() != "Meta"@.len());
    assert("ContextMenu"@.len() != "OS"@.len());
    assert("NumLock"@.len() != "Backspace"@.len());
    assert("NumLock"@.len() != "Tab"@.len());
    assert("NumLock"@.len() != "Clear"@.len());
    assert("NumLock"@.len() != "Enter"@.len());
    assert("NumLock"@.len() != "Shift"@.len());
    assert("NumLock"@[0] != "Control"@[0]);
    assert("NumLock"@.len() != "Alt"@.len());
    assert("NumLock"@.len() != "Pause"@.len());
    assert("NumLock"@.len() != "CapsLock"@.len());
    assert("NumLock"@.len() != "Escape"@.len());
    assert("NumLock"@.len() != " "@.len());
    assert("NumLock"@.len() != "Spacebar"@.len());
    assert("NumLock"@.len() != "PageUp"@.len());
    assert("NumLock"@.len() != "PageDown"@.len());
    assert("NumLock"@.len() != "End"@.len());
    assert("NumLock"@.len() != "Home"@.len());
    assert("NumLock"@.len() != "ArrowLeft"@.len());
    assert("NumLock"@[0] != "ArrowUp"@[0]);
    assert("NumLock"@.len() != "ArrowRight"@.len());
    assert("NumLock"@.len() != "ArrowDown"@.len());
    assert("NumLock"@.len() != "PrintScreen"@.len());
    assert("NumLock"@.len() != "Insert"@.len());
    assert("NumLock"@.len() != "Delete"@.len());
    assert("NumLock"@.len() != "Meta"@.len());
    assert("NumLock"@.len() != "OS"@.len());
    assert("NumLock"@.len() != "ContextMenu"@.len());
    assert("ScrollLock"@.len() != "Backspace"@.len());
    assert("ScrollLock"@.len() != "Tab"@.len());
    assert("ScrollLock"@.len() != "Clear"@.len());
    assert("ScrollLock"@.len() != "Enter"@.len());
    assert("ScrollLock"@.len() != "Shift"@.len());
    assert("ScrollLock"@.len() != "Control"@.len());
    assert("ScrollLock"@.len() != "Alt"@.len());
    assert("ScrollLock"@.len() != "Pause"@.len());
    assert("ScrollLock"@.len() != "CapsLock"@.len());
    assert("ScrollLock"@.len() != "Escape"@.len());
    assert("ScrollLock"@.len() != " "@.len());
    assert("ScrollLock"@.len() != "Spacebar"@.len());
    assert("ScrollLock"@.len() != "PageUp"@.len());
    assert("ScrollLock"@.len() != "PageDown"@.len());
    assert("ScrollLock"@.len() != "End"@.len());
    assert("ScrollLock"@.len() != "Home"@.len());
    assert("ScrollLock"@.len() != "ArrowLeft"@.len());
    assert("ScrollLock"@.len() != "ArrowUp"@.len());
    assert("ScrollLock"@[0] != "ArrowRight"@[0]);
    assert("ScrollLock"@.len() != "ArrowDown"@.len());
    assert("ScrollLock"@.len() != "PrintScreen"@.len());
    assert("ScrollLock"@.len() != "Insert"@.len());
    assert("ScrollLock"@.len() != "Delete"@.len());
    assert("ScrollLock"@.len() != "Meta"@.len());
    assert("ScrollLock"@.len() != "OS"@.len());
    assert("ScrollLock"@.len() != "ContextMenu"@.len());
    assert("ScrollLock"@.len() != "NumLock"@.len());
}

/// The punctuation keys carry their US-layout codes, and a key reads the
/// same whether it is found by its physical `code` or, with no `code`, by
/// either character it types: `Semicolon`, `;` and `:` are 186, and so on
/// for `=`/`+`, `,`/`<`, `-`/`_`, `.`/`>`, `/`/`?`, the backquote and tilde,
/// the brackets and braces, the backslash and bar, and the quotes.
pub proof fn law_punctuation_reads_alike_by_code_or_character(key: Seq<char>)
    requires
        named_key_spec(key) is None,
    ensures
        virtual_key_spec(key, "Semicolon"@) == Some(186i64),
        virtual_key_spec(";"@, ""@) == Some(186i64) && virtual_key_spec(":"@, ""@) == Some(186i64),
        virtual_key_spec(key, "Equal"@) == Some(187i64),
        virtual_key_spec("="@, ""@) == Some(187i64) && virtual_key_spec("+"@, ""@) == Some(187i64),
        virtual_key_spec(key, "Comma"@) == Some(188i64),
        virtual_key_spec(","@, ""@) == Some(188i64) && virtual_key_spec("<"@, ""@) == Some(188i64),
        virtual_key_spec(key, "Minus"@) == Some(189i64),
        virtual_key_spec("-"@, ""@) == Some(189i64) && virtual_key_spec("_"@, ""@) == Some(189i64),
        virtual_key_spec(key, "Period"@) == Some(190i64),
        virtual_key_spec("."@, ""@) == Some(190i64) && virtual_key_spec(">"@, ""@) == Some(190i64),
        virtual_key_spec(key, "Slash"@) == Some(191i64),
        virtual_key_spec("/"@, ""@) == Some(191i64) && virtual_key_spec("?"@, ""@) == Some(191i64),
        virtual_key_spec(key, "Backquote"@) == Some(192i64),
        virtual_key_spec("`"@, ""@) == Some(192i64) && virtual_key_spec("~"@, ""@) == Some(192i64),
        virtual_key_spec(key, "BracketLeft"@) == Some(219i64),
        virtual_key_spec("["@, ""@) == Some(219i64) && virtual_key_spec("{"@, ""@) == Some(219i64),
        virtual_key_spec(key, "Backslash"@) == Some(220i64),
        virtual_key_spec("\\"@, ""@) == Some(220i64) && virtual_key_spec("|"@, ""@) == Some(220i64),
        virtual_key_spec(key, "BracketRight"@) == Some(221i64),
        virtual_key_spec("]"@, ""@) == Some(221i64) && virtual_key_spec("}"@, ""@) == Some(221i64),
        virtual_key_spec(key, "Quote"@) == Some(222i64),
        virtual_key_spec("'"@, ""@) == Some(222i64) && virtual_key_spec("\""@, ""@) == Some(222i64),
{
    reveal_strlit("NumpadMultiply");
    reveal_strlit("NumpadAdd");
    reveal_strlit("NumpadSubtract");
    reveal_strlit("NumpadDecimal");
    reveal_strlit("NumpadDivide");
    reveal_strlit("NumpadEnter");
    reveal_strlit("Semicolon");
    reveal_strlit("Equal");
    reveal_strlit("Comma");
    reveal_strlit("Minus");
    reveal_strlit("Period");
    reveal_strlit("Slash");
    reveal_strlit("Backquote");
    reveal_strlit("BracketLeft");
    reveal_strlit("Backslash");
    reveal_strlit("IntlBackslash");
    reveal_strlit("BracketRight");
    reveal_strlit("Quote");
    reveal_strlit("Digit");
    reveal_strlit("Key");
    reveal_strlit("Numpad");
    reveal_strlit("");
    reveal_strlit("Backspace");
    reveal_strlit("Tab");
    reveal_strlit("Clear");
    reveal_strlit("Enter");
    reveal_strlit("Shift");
    reveal_strlit("Control");
    reveal_strlit("Alt");
    reveal_strlit("Pause");
    reveal_strlit("CapsLock");
    reveal_strlit("Escape");
    reveal_strlit(" ");
    reveal_strlit("Spacebar");
    reveal_strlit("PageUp");
    reveal_strlit("PageDown");
    reveal_strlit("End");
    reveal_strlit("Home");
    reveal_strlit("ArrowLeft");
    reveal_strlit("ArrowUp");
    reveal_strlit("ArrowRight");
    reveal_strlit("ArrowDown");
    reveal_strlit("PrintScreen");
    reveal_strlit("Insert");
    reveal_strlit("Delete");
    reveal_strlit("Meta");
    reveal_strlit("OS");
    reveal_strlit("ContextMenu");
    reveal_strlit("NumLock");
    reveal_strlit("ScrollLock");
    assert(!starts_with("Semicolon"@, "Digit"@)) by { assert("Semicolon"@[0] != "Digit"@[0]); if "Digit"@.len() <= "Semicolon"@.len() { assert("Semicolon"@.subrange(0, "Digit"@.len() as int)[0] == "Semicolon"@[0]); } }
    assert(!starts_with("Semicolon"@, "Key"@)) by { assert("Semicolon"@[0] != "Key"@[0]); if "Key"@.len() <= "Semicolon"@.len() { assert("Semicolon"@.subrange(0, "Key"@.len() as int)[0] == "Semicolon"@[0]); } }
    assert(!starts_with("Semicolon"@, "Numpad"@)) by { assert("Semicolon"@[0] != "Numpad"@[0]); if "Numpad"@.len() <= "Semicolon"@.len() { assert("Semicolon"@.subrange(0, "Numpad"@.len() as int)[0] == "Semicolon"@[0]); } }
    assert("Semicolon"@.len() != "NumpadMultiply"@.len());
    assert("Semicolon"@[0] != "NumpadAdd"@[0]);
    assert("Semicolon"@.len() != "NumpadSubtract"@.len());
    assert("Semicolon"@.len() != "NumpadDecimal"@.len());
    assert("Semicolon"@.len() != "NumpadDivide"@.len());
    assert("Semicolon"@.len() != "NumpadEnter"@.len());
    assert(!starts_with("Equal"@, "Digit"@)) by { assert("Equal"@[0] != "Digit"@[0]); if "Digit"@.len() <= "Equal"@.len() { assert("Equal"@.subrange(0, "Digit"@.len() as int)[0] == "Equal"@[0]); } }
    assert(!starts_with("Equal"@, "Key"@)) by { assert("Equal"@[0] != "Key"@[0]); if "Key"@.len() <= "Equal"@.len() { assert("Equal"@.subrange(0, "Key"@.len() as int)[0] == "Equal"@[0]); } }
    assert(!starts_with("Equal"@, "Numpad"@)) by { assert("Equal"@[0] != "Numpad"@[0]); if "Numpad"@.len() <= "Equal"@.len() { assert("Equal"@.subrange(0, "Numpad"@.len() as int)[0] == "Equal"@[0]); } }
    assert("Equal"@.len() != "NumpadMultiply"@.len());
    assert("Equal"@.len() != "NumpadAdd"@.len());
    assert("Equal"@.len() != "NumpadSubtract"@.len());
    assert("Equal"@.len() != "NumpadDecimal"@.len());
    assert("Equal"@.len() != "NumpadDivide"@.len());
    assert("Equal"@.len() != "NumpadEnter"@.len());
    assert("Equal"@.len() != "Semicolon"@.len());
    assert(!starts_with("Comma"@, "Digit"@)) by { assert("Comma"@[0] != "Digit"@[0]); if "Digit"@.len() <= "Comma"@.len() { assert("Comma"@.subrange(0, "Digit"@.len() as int)[0] == "Comma"@[0]); } }
    assert(!starts_with("Comma"@, "Key"@)) by { assert("Comma"@[0] != "Key"@[0]); if "Key"@.len() <= "Comma"@.len() { assert("Comma"@.subrange(0, "Key"@.len() as int)[0] == "Comma"@[0]); } }
    assert(!starts_with("Comma"@, "Numpad"@)) by { assert("Comma"@[0] != "Numpad"@[0]); if "Numpad"@.len() <= "Comma"@.len() { assert("Comma"@.subrange(0, "Numpad"@.len() as int)[0] == "Comma"@[0]); } }
    assert("Comma"@.len() != "NumpadMultiply"@.len());
    assert("Comma"@.len() != "NumpadAdd"@.len());
    assert("Comma"@.len() != "NumpadSubtract"@.len());
    assert("Comma"@.len() != "NumpadDecimal"@.len());
    assert("Comma"@.len() != "NumpadDivide"@.len());
    assert("Comma"@.len() != "NumpadEnter"@.len());
    assert("Comma"@.len() != "Semicolon"@.len());
    assert("Comma"@[0] != "Equal"@[0]);
    assert(!starts_with("Minus"@, "Digit"@)) by { assert("Minus"@[0] != "Digit"@[0]); if "Digit"@.len() <= "Minus"@.len() { assert("Minus"@.subrange(0, "Digit"@.len() as int)[0] == "Minus"@[0]); } }
    assert(!starts_with("Minus"@, "Key"@)) by { assert("Minus"@[0] != "Key"@[0]); if "Key"@.len() <= "Minus"@.len() { assert("Minus"@.subrange(0, "Key"@.len() as int)[0] == "Minus"@[0]); } }
    assert(!starts_with("Minus"@, "Numpad"@)) by { assert("Minus"@[0] != "Numpad"@[0]); if "Numpad"@.len() <= "Minus"@.len() { assert("Minus"@.subrange(0, "Numpad"@.len() as int)[0] == "Minus"@[0]); } }
    assert("Minus"@.len() != "NumpadMultiply"@.len());
    assert("Minus"@.len() != "NumpadAdd"@.len());
    assert("Minus"@.len() != "NumpadSubtract"@.len());
    assert("Minus"@.len() != "NumpadDecimal"@.len());
    assert("Minus"@.len() != "NumpadDivide"@.len());
    assert("Minus"@.len() != "NumpadEnter"@.len());
    assert("Minus"@.len() != "Semicolon"@.len());
    assert("Minus"@[0] != "Equal"@[0]);
    assert("Minus"@[0] != "Comma"@[0]);
    assert(!starts_with("Period"@, "Digit"@)) by { assert("Period"@[0] != "Digit"@[0]); if "Digit"@.len() <= "Period"@.len() { assert("Period"@.subrange(0, "Digit"@.len() as int)[0] == "Period"@[0]); } }
    assert(!starts_with("Period"@, "Key"@)) by { assert("Period"@[0] != "Key"@[0]); if "Key"@.len() <= "Period"@.len() { assert("Period"@.subrange(0, "Key"@.len() as int)[0] == "Period"@[0]); } }
    assert(!starts_with("Period"@, "Numpad"@)) by { assert("Period"@[0] != "Numpad"@[0]); if "Numpad"@.len() <= "Period"@.len() { assert("Period"@.subrange(0, "Numpad"@.len() as int)[0] == "Period"@[0]); } }
    assert("Period"@.len() != "NumpadMultiply"@.len());
    assert("Period"@.len() != "NumpadAdd"@.len());
    assert("Period"@.len() != "NumpadSubtract"@.len());
    assert("Period"@.len() != "NumpadDecimal"@.len());
    assert("Period"@.len() != "NumpadDivide"@.len());
    assert("Period"@.len() != "NumpadEnter"@.len());
    assert("Period"@.len() != "Semicolon"@.len());
    assert("Period"@.len() != "Equal"@.len());
    assert("Period"@.len() != "Comma"@.len());
    assert("Period"@.len() != "Minus"@.len());
    assert(!starts_with("Slash"@, "Digit"@)) by { assert("Slash"@[0] != "Digit"@[0]); if "Digit"@.len() <= "Slash"@.len() { assert("Slash"@.subrange(0, "Digit"@.len() as int)[0] == "Slash"@[0]); } }
    assert(!starts_with("Slash"@, "Key"@)) by { assert("Slash"@[0] != "Key"@[0]); if "Key"@.len() <= "Slash"@.len() { assert("Slash"@.subrange(0, "Key"@.len() as int)[0] == "Slash"@[0]); } }
    assert(!starts_with("Slash"@, "Numpad"@)) by { assert("Slash"@[0] != "Numpad"@[0]); if "Numpad"@.len() <= "Slash"@.len() { assert("Slash"@.subrange(0, "Numpad"@.len() as int)[0] == "Slash"@[0]); } }
    assert("Slash"@.len() != "NumpadMultiply"@.len());
    assert("Slash"@.len() != "NumpadAdd"@.len());
    assert("Slash"@.len() != "NumpadSubtract"@.len());
    assert("Slash"@.len() != "NumpadDecimal"@.len());
    assert("Slash"@.len() != "NumpadDivide"@.len());
    assert("Slash"@.len() != "NumpadEnter"@.len());
    assert("Slash"@.len() != "Semicolon"@.len());
    assert("Slash"@[0] != "Equal"@[0]);
    assert("Slash"@[0] != "Comma"@[0]);
    assert("Slash"@[0] != "Minus"@[0]);
    assert("Slash"@.len() != "Period"@.len());
    assert(!starts_with("Backquote"@, "Digit"@)) by { assert("Backquote"@[0] != "Digit"@[0]); if "Digit"@.len() <= "Backquote"@.len() { assert("Backquote"@.subrange(0, "Digit"@.len() as int)[0] == "Backquote"@[0]); } }
    assert(!starts_with("Backquote"@, "Key"@)) by { assert("Backquote"@[0] != "Key"@[0]); if "Key"@.len() <= "Backquote"@.len() { assert("Backquote"@.subrange(0, "Key"@.len() as int)[0] == "Backquote"@[0]); } }
    assert(!starts_with("Backquote"@, "Numpad"@)) by { assert("Backquote"@[0] != "Numpad"@[0]); if "Numpad"@.len() <= "Backquote"@.len() { assert("Backquote"@.subrange(0, "Numpad"@.len() as int)[0] == "Backquote"@[0]); } }
    assert("Backquote"@.len() != "NumpadMultiply"@.len());
    assert("Backquote"@[0] != "NumpadAdd"@[0]);
    assert("Backquote"@.len() != "NumpadSubtract"@.len());
    assert("Backquote"@.len() != "NumpadDecimal"@.len());
    assert("Backquote"@.len() != "NumpadDivide"@.len());
    assert("Backquote"@.len() != "NumpadEnter"@.len());
    assert("Backquote"@[0] != "Semicolon"@[0]);
    assert("Backquote"@.len() != "Equal"@.len());
    assert("Backquote"@.len() != "Comma"@.len());
    assert("Backquote"@.len() != "Minus"@.len());
    assert("Backquote"@.len() != "Period"@.len());
    assert("Backquote"@.len() != "Slash"@.len());
    assert(!starts_with("BracketLeft"@, "Digit"@)) by { assert("BracketLeft"@[0] != "Digit"@[0]); if "Digit"@.len() <= "BracketLeft"@.len() { assert("BracketLeft"@.subrange(0, "Digit"@.len() as int)[0] == "BracketLeft"@[0]); } }
    assert(!starts_with("BracketLeft"@, "Key"@)) by { assert("BracketLeft"@[0] != "Key"@[0]); if "Key"@.len() <= "BracketLeft"@.len() { assert("BracketLeft"@.subrange(0, "Key"@.len() as int)[0] == "BracketLeft"@[0]); } }
    assert(!starts_with("BracketLeft"@, "Numpad"@)) by { assert("BracketLeft"@[0] != "Numpad"@[0]); if "Numpad"@.len() <= "BracketLeft"@.len() { assert("BracketLeft"@.subrange(0, "Numpad"@.len() as int)[0] == "BracketLeft"@[0]); } }
    assert("BracketLeft"@.len() != "NumpadMultiply"@.len());
    assert("BracketLeft"@.len() != "NumpadAdd"@.len());
    assert("BracketLeft"@.len() != "NumpadSubtract"@.len());
    assert("BracketLeft"@.len() != "NumpadDecimal"@.len());
    assert("BracketLeft"@.len() != "NumpadDivide"@.len());
    assert("BracketLeft"@[0] != "NumpadEnter"@[0]);
    assert("BracketLeft"@.len() != "Semicolon"@.len());
    assert("BracketLeft"@.len() != "Equal"@.len());
    assert("BracketLeft"@.len() != "Comma"@.len());
    assert("BracketLeft"@.len() != "Minus"@.len());
    assert("BracketLeft"@.len() != "Period"@.len());
    assert("BracketLeft"@.len() != "Slash"@.len());
    assert("BracketLeft"@.len() != "Backquote"@.len());
    assert(!starts_with("Backslash"@, "Digit"@)) by { assert("Backslash"@[0] != "Digit"@[0]); if "Digit"@.len() <= "Backslash"@.len() { assert("Backslash"@.subrange(0, "Digit"@.len() as int)[0] == "Backslash"@[0]); } }
    assert(!starts_with("Backslash"@, "Key"@)) by { assert("Backslash"@[0] != "Key"@[0]); if "Key"@.len() <= "Backslash"@.len() { assert("Backslash"@.subrange(0, "Key"@.len() as int)[0] == "Backslash"@[0]); } }
    assert(!starts_with("Backslash"@, "Numpad"@)) by { assert("Backslash"@[0] != "Numpad"@[0]); if "Numpad"@.len() <= "Backslash"@.len() { assert("Backslash"@.subrange(0, "Numpad"@.len() as int)[0] == "Backslash"@[0]); } }
    assert("Backslash"@.len() != "NumpadMultiply"@.len());
    assert("Backslash"@[0] != "NumpadAdd"@[0]);
    assert("Backslash"@.len() != "NumpadSubtract"@.len());
    assert("Backslash"@.len() != "NumpadDecimal"@.len());
    assert("Backslash"@.len() != "NumpadDivide"@.len());
    assert("Backslash"@.len() != "NumpadEnter"@.len());
    assert("Backslash"@[0] != "Semicolon"@[0]);
    assert("Backslash"@.len() != "Equal"@.len());
    assert("Backslash"@.len() != "Comma"@.len());
    assert("Backslash"@.len() != "Minus"@.len());
    assert("Backslash"@.len() != "Period"@.len());
    assert("Backslash"@.len() != "Slash"@.len());
    assert("Backslash"@[4] != "Backquote"@[4]);
    assert("Backslash"@.len() != "BracketLeft"@.len());
    assert(!starts_with("BracketRight"@, "Digit"@)) by { assert("BracketRight"@[0] != "Digit"@[0]); if "Digit"@.len() <= "BracketRight"@.len() { assert("BracketRight"@.subrange(0, "Digit"@.len() as int)[0] == "BracketRight"@[0]); } }
    assert(!starts_with("BracketRight"@, "Key"@)) by { assert("BracketRight"@[0] != "Key"@[0]); if "Key"@.len() <= "BracketRight"@.len() { assert("BracketRight"@.subrange(0, "Key"@.len() as int)[0] == "BracketRight"@[0]); } }
    assert(!starts_with("BracketRight"@, "Numpad"@)) by { assert("BracketRight"@[0] != "Numpad"@[0]); if "Numpad"@.len() <= "BracketRight"@.len() { assert("BracketRight"@.subrange(0, "Numpad"@.len() as int)[0] == "BracketRight"@[0]); } }
    assert("BracketRight"@.len() != "NumpadMultiply"@.len());
    assert("BracketRight"@.len() != "NumpadAdd"@.len());
    assert("BracketRight"@.len() != "NumpadSubtract"@.len());
    assert("BracketRight"@.len() != "NumpadDecimal"@.len());
    assert("BracketRight"@[0] != "NumpadDivide"@[0]);
    assert("BracketRight"@.len() != "NumpadEnter"@.len());
    assert("BracketRight"@.len() != "Semicolon"@.len());
    assert("BracketRight"@.len() != "Equal"@.len());
    assert("BracketRight"@.len() != "Comma"@.len());
    assert("BracketRight"@.len() != "Minus"@.len());
    assert("BracketRight"@.len() != "Period"@.len());
    assert("BracketRight"@.len() != "Slash"@.len());
    assert("BracketRight"@.len() != "Backquote"@.len());
    assert("BracketRight"@.len() != "BracketLeft"@.len());
    assert("BracketRight"@.len() != "Backslash"@.len());
    assert("BracketRight"@.len() != "IntlBackslash"@.len());
    assert(!starts_with("Quote"@, "Digit"@)) by { assert("Quote"@[0] != "Digit"@[0]); if "Digit"@.len() <= "Quote"@.len() { assert("Quote"@.subrange(0, "Digit"@.len() as int)[0] == "Quote"@[0]); } }
    assert(!starts_with("Quote"@, "Key"@)) by { assert("Quote"@[0] != "Key"@[0]); if "Key"@.len() <= "Quote"@.len() { assert("Quote"@.subrange(0, "Key"@.len() as int)[0] == "Quote"@[0]); } }
    assert(!starts_with("Quote"@, "Numpad"@)) by { assert("Quote"@[0] != "Numpad"@[0]); if "Numpad"@.len() <= "Quote"@.len() { assert("Quote"@.subrange(0, "Numpad"@.len() as int)[0] == "Quote"@[0]); } }
    assert("Quote"@.len() != "NumpadMultiply"@.len());
    assert("Quote"@.len() != "NumpadAdd"@.len());
    assert("Quote"@.len() != "NumpadSubtract"@.len());
    assert("Quote"@.len() != "NumpadDecimal"@.len());
    assert("Quote"@.len() != "NumpadDivide"@.len());
    assert("Quote"@.len() != "NumpadEnter"@.len());
    assert("Quote"@.len() != "Semicolon"@.len());
    assert("Quote"@[0] != "Equal"@[0]);
    assert("Quote"@[0] != "Comma"@[0]);
    assert("Quote"@[0] != "Minus"@[0]);
    assert("Quote"@.len() != "Period"@.len());
    assert("Quote"@[0] != "Slash"@[0]);
    assert("Quote"@.len() != "Backquote"@.len());
    assert("Quote"@.len() != "BracketLeft"@.len());
    assert("Quote"@.len() != "Backslash"@.len());
    assert("Quote"@.len() != "IntlBackslash"@.len());
    assert("Quote"@.len() != "BracketRight"@.len());
    reveal_strlit(";");
    assert(";"@.len() == 1);
    assert(";"@ != " "@) by { assert(";"@[0] != " "@[0]); }
    assert(";"@.drop_first() =~= Seq::<char>::empty());
    reveal_strlit("=");
    assert("="@.len() == 1);
    assert("="@ != " "@) by { assert("="@[0] != " "@[0]); }
    assert("="@.drop_first() =~= Seq::<char>::empty());
    reveal_strlit(",");
    assert(","@.len() == 1);
    assert(","@ != " "@) by { assert(","@[0] != " "@[0]); }
    assert(","@.drop_first() =~= Seq::<char>::empty());
    reveal_strlit("-");
    assert("-"@.len() == 1);
    assert("-"@ != " "@) by { assert("-"@[0] != " "@[0]); }
    assert("-"@.drop_first() =~= Seq::<char>::empty());
    reveal_strlit(".");
    assert("."@.len() == 1);
    assert("."@ != " "@) by { assert("."@[0] != " "@[0]); }
    assert("."@.drop_first() =~= Seq::<char>::empty());
    reveal_strlit("/");
    assert("/"@.len() == 1);
    assert("/"@ != " "@) by { assert("/"@[0] != " "@[0]); }
    assert("/"@.drop_first() =~= Seq::<char>::empty());
    reveal_strlit("`");
    assert("`"@.len() == 1);
    assert("`"@ != " "@) by { assert("`"@[0] != " "@[0]); }
    assert("`"@.drop_first() =~= Seq::<char>::empty());
    reveal_strlit("[");
    assert("["@.len() == 1);
    assert("["@ != " "@) by { assert("["@[0] != " "@[0]); }
    assert("["@.drop_first() =~= Seq::<char>::empty());
    reveal_strlit("\\");
    assert("\\"@.len() == 1);
    assert("\\"@ != " "@) by { assert("\\"@[0] != " "@[0]); }
    assert("\\"@.drop_first() =~= Seq::<char>::empty());
    reveal_strlit("]");
    assert("]"@.len() == 1);
    assert("]"@ != " "@) by { assert("]"@[0] != " "@[0]); }
    assert("]"@.drop_first() =~= Seq::<char>::empty());
    reveal_strlit("'");
    assert("'"@.len() == 1);
    assert("'"@ != " "@) by { assert("'"@[0] != " "@[0]); }
    assert("'"@.drop_first() =~= Seq::<char>::empty());
    reveal_strlit(":");
    assert(":"@.len() == 1);
    assert(":"@ != " "@) by { assert(":"@[0] != " "@[0]); }
    assert(":"@.drop_first() =~= Seq::<char>::empty());
    reveal_strlit("+");
    assert("+"@.len() == 1);
    assert("+"@ != " "@) by { assert("+"@[0] != " "@[0]); }
    assert("+"@.drop_first() =~= Seq::<char>::empty());
    reveal_strlit("<");
    assert("<"@.len() == 1);
    assert("<"@ != " "@) by { assert("<"@[0] != " "@[0]); }
    assert("<"@.drop_first() =~= Seq::<char>::empty());
    reveal_strlit("_");
    assert("_"@.len() == 1);
    assert("_"@ != " "@) by { assert("_"@[0] != " "@[0]); }
    assert("_"@.drop_first() =~= Seq::<char>::empty());
    reveal_strlit(">");
    assert(">"@.len() == 1);
    assert(">"@ != " "@) by { assert(">"@[0] != " "@[0]); }
    assert(">"@.drop_first() =~= Seq::<char>::empty());
    reveal_strlit("?");
    assert("?"@.len() == 1);
    assert("?"@ != " "@) by { assert("?"@[0] != " "@[0]); }
    assert("?"@.drop_first() =~= Seq::<char>::empty());
    reveal_strlit("~");
    assert("~"@.len() == 1);
    assert("~"@ != " "@) by { assert("~"@[0] != " "@[0]); }
    assert("~"@.drop_first() =~= Seq::<char>::empty());
    reveal_strlit("{");
    assert("{"@.len() == 1);
    assert("{"@ != " "@) by { assert("{"@[0] != " "@[0]); }
    assert("{"@.drop_first() =~= Seq::<char>::empty());
    reveal_strlit("|");
    assert("|"@.len() == 1);
    assert("|"@ != " "@) by { assert("|"@[0] != " "@[0]); }
    assert("|"@.drop_first() =~= Seq::<char>::empty());
    reveal_strlit("}");
    assert("}"@.len() == 1);
    assert("}"@ != " "@) by { assert("}"@[0] != " "@[0]); }
    assert("}"@.drop_first() =~= Seq::<char>::empty());
    reveal_strlit("\"");
    assert("\""@.len() == 1);
    assert("\""@ != " "@) by { assert("\""@[0] != " "@[0]); }
    assert("\""@.drop_first() =~= Seq::<char>::empty());
    assert("Backspace"@.len() != 1);
    assert("Tab"@.len() != 1);
    assert("Clear"@.len() != 1);
    assert("Enter"@.len() != 1);
    assert("Shift"@.len() != 1);
    assert("Control"@.len() != 1);
    assert("Alt"@.len() != 1);
    assert("Pause"@.len() != 1);
    assert("CapsLock"@.len() != 1);
    assert("Escape"@.len() != 1);
    assert("Spacebar"@.len() != 1);
    assert("PageUp"@.len() != 1);
    assert("PageDown"@.len() != 1);
    assert("End"@.len() != 1);
    assert("Home"@.len() != 1);
    assert("ArrowLeft"@.len() != 1);
    assert("ArrowUp"@.len() != 1);
    assert("ArrowRight"@.len() != 1);
    assert("ArrowDown"@.len() != 1);
    assert("PrintScreen"@.len() != 1);
    assert("Insert"@.len() != 1);
    assert("Delete"@.len() != 1);
    assert("Meta"@.len() != 1);
    assert("OS"@.len() != 1);
    assert("ContextMenu"@.len() != 1);
    assert("NumLock"@.len() != 1);
    assert("ScrollLock"@.len() != 1);
    assert(!starts_with(""@, "Digit"@) && !starts_with(""@, "Key"@) && !starts_with(""@, "Numpad"@));
    assert(""@.len() != "NumpadMultiply"@.len());
    assert(""@.len() != "NumpadAdd"@.len());
    assert(""@.len() != "NumpadSubtract"@.len());
    assert(""@.len() != "NumpadDecimal"@.len());
    assert(""@.len() != "NumpadDivide"@.len());
    assert(""@.len() != "NumpadEnter"@.len());
    assert(""@.len() != "Semicolon"@.len());
    assert(""@.len() != "Equal"@.len());
    assert(""@.len() != "Comma"@.len());
    assert(""@.len() != "Minus"@.len());
    assert(""@.len() != "Period"@.len());
    assert(""@.len() != "Slash"@.len());
    assert(""@.len() != "Backquote"@.len());
    assert(""@.len() != "BracketLeft"@.len());
    assert(""@.len() != "Backslash"@.len());
    assert(""@.len() != "IntlBackslash"@.len());
    assert(""@.len() != "BracketRight"@.len());
    assert(""@.len() != "Quote"@.len());
}

} // verus!
