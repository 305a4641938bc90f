use vstd::prelude::*;
use vstd::string::*;

verus! {

broadcast use vstd::string::group_string_axioms;

/// Appends one character to a string.
#[verifier::external_body]
pub(crate) fn push_char(s: &mut String, c: char)
    ensures
        final(s)@ == old(s)@.push(c),
{
    s.push(c);
}

/// The characters of a string slice, in order.
pub fn chars_of(s: &str) -> (v: Vec<char>)
    ensures
        v@ == s@,
{
    let mut v: Vec<char> = Vec::new();
    for c in it: s.chars()
        invariant
            v@ == it.seq().take(it.index() as int),
    {
        v.push(c);
    }
    v
}

/// A string holding exactly the given characters.
pub fn string_from_chars(cs: &[char]) -> (s: String)
    ensures
        s@ == cs@,
{
    let mut s = String::new();
    let mut i: usize = 0;
    while i < cs.len()
        invariant
            i <= cs@.len(),
            s@ == cs@.take(i as int),
        decreases cs@.len() - i,
    {
        push_char(&mut s, cs[i]);
        assert(cs@.take(i as int + 1) =~= cs@.take(i as int).push(cs@[i as int]));
        i = i + 1;
    }
    assert(cs@.take(cs@.len() as int) =~= cs@);
    s
}


/// Whether two character sequences are equal, element by element.
pub fn chars_eq(a: &[char], b: &[char]) -> (r: bool)
    ensures
        r == (a@ == b@),
{
    if a.len() != b.len() {
        return false;
    }
    let mut i: usize = 0;
    while i < a.len()
        invariant
            a@.len() == b@.len(),
            i <= a@.len(),
            forall|j: int| 0 <= j < i ==> a@[j] == b@[j],
        decreases a@.len() - i,
    {
        if a[i] != b[i] {
            return false;
        }
        i = i + 1;
    }
    assert(a@ =~= b@);
    true
}

/// Whether two string slices hold the same characters.
pub fn str_eq(a: &str, b: &str) -> (r: bool)
    ensures
        r == (a@ == b@),
{
    let x = chars_of(a);
    let y = chars_of(b);
    chars_eq(x.as_slice(), y.as_slice())
}

pub open spec fn is_ascii_digit(c: char) -> bool {
    '0' <= c <= '9'
}

pub open spec fn is_ascii_upper(c: char) -> bool {
    'A' <= c <= 'Z'
}

pub open spec fn is_ascii_lower(c: char) -> bool {
    'a' <= c <= 'z'
}

pub open spec fn is_ascii_alpha(c: char) -> bool {
    is_ascii_upper(c) || is_ascii_lower(c)
}

pub open spec fn digit_of(c: char) -> nat {
    (c as u32 - '0' as u32) as nat
}

/// The number written by a run of decimal digits, most significant first.
pub open spec fn decimal_value(s: Seq<char>) -> nat
    decreases s.len(),
{
    if s.len() == 0 {
        0
    } else {
        decimal_value(s.drop_last()) * 10 + digit_of(s.last())
    }
}

pub open spec fn all_digits(s: Seq<char>) -> bool {
    forall|i: int| 0 <= i < s.len() ==> is_ascii_digit(#[trigger] s[i])
}

/// What Rust's `FromStr` for an unsigned integer with maximum `max` yields:
/// an optional `+`, then one or more decimal digits whose value fits.
pub open spec fn parse_unsigned_spec(s: Seq<char>, max: nat) -> Option<nat> {
    let digits = if s.len() > 0 && s[0] == '+' { s.drop_first() } else { s };
    if digits.len() > 0 && all_digits(digits) && decimal_value(digits) <= max {
        Some(decimal_value(digits))
    } else {
        None
    }
}

pub proof fn lemma_decimal_value_prefix_grows(s: Seq<char>, i: int)
    requires
        0 <= i <= s.len(),
        all_digits(s),
    ensures
        decimal_value(s.take(i)) <= decimal_value(s),
    decreases s.len() - i,
{
    if i < s.len() {
        lemma_decimal_value_prefix_grows(s, i + 1);
        assert(s.take(i + 1).drop_last() =~= s.take(i));
        assert(s.take(i + 1).last() == s[i]);
        assert(decimal_value(s.take(i + 1)) == decimal_value(s.take(i)) * 10 + digit_of(s[i]));
    } else {
        assert(s.take(i) =~= s);
    }
}

/// The decimal spelling of `n` reads back as `n`.
pub proof fn lemma_decimal_round_trip(n: nat)
    ensures
        decimal_chars(n).len() > 0,
        all_digits(decimal_chars(n)),
        decimal_value(decimal_chars(n)) == n,
    decreases n,
{
    lemma_digit_round_trip(n % 10);
    if n < 10 {
        assert(decimal_chars(n) == seq![digit_char(n)]);
        assert(decimal_chars(n).drop_last() =~= Seq::<char>::empty());
        assert(decimal_value(decimal_chars(n)) == decimal_value(Seq::<char>::empty()) * 10 + digit_of(digit_char(n)));
    } else {
        lemma_decimal_round_trip(n / 10);
        let s = decimal_chars(n);
        assert(s == decimal_chars(n / 10).push(digit_char(n % 10)));
        assert(s.drop_last() =~= decimal_chars(n / 10));
        assert forall|i: int| 0 <= i < s.len() implies is_ascii_digit(#[trigger] s[i]) by {
            if i < s.len() - 1 {
                assert(s[i] == decimal_chars(n / 10)[i]);
            }
        }
    }
}

proof fn lemma_digit_round_trip(d: nat)
    requires
        d < 10,
    ensures
        digit_of(digit_char(d)) == d,
        is_ascii_digit(digit_char(d)),
{
    assert(((d + '0' as u32) as u32) as char as u32 == d + 48);
}

proof fn lemma_trim_start_first(s: Seq<char>)
    ensures
        trim_start_spec(s).len() > 0 ==> !char_is_whitespace(trim_start_spec(s)[0]),
    decreases s.len(),
{
    if s.len() > 0 && char_is_whitespace(s[0]) {
        lemma_trim_start_first(s.drop_first());
    }
}

proof fn lemma_trim_end_prefix(s: Seq<char>)
    ensures
        trim_end_spec(s).len() <= s.len(),
        trim_end_spec(s) == s.take(trim_end_spec(s).len() as int),
        trim_end_spec(s).len() > 0 ==> !char_is_whitespace(trim_end_spec(s).last()),
    decreases s.len(),
{
    if s.len() > 0 && char_is_whitespace(s.last()) {
        lemma_trim_end_prefix(s.drop_last());
        let t = trim_end_spec(s.drop_last());
        assert(s.drop_last().take(t.len() as int) =~= s.take(t.len() as int));
    } else {
        assert(s.take(s.len() as int) =~= s);
    }
}

/// A trimmed spelling neither starts nor ends with whitespace, so trimming
/// it again changes nothing.
pub proof fn lemma_trim_idempotent(s: Seq<char>)
    ensures
        trim_spec(trim_spec(s)) == trim_spec(s),
        trim_spec(s).len() > 0 ==> !char_is_whitespace(trim_spec(s)[0]) && !char_is_whitespace(trim_spec(s).last()),
{
    let a = trim_start_spec(s);
    lemma_trim_start_first(s);
    lemma_trim_end_prefix(a);
    let t = trim_spec(s);
    if t.len() > 0 {
        assert(t[0] == a[0]);
        lemma_trim_unchanged(t);
    }
}

/// A spelling that starts and ends with non-whitespace is its own trim.
pub proof fn lemma_trim_unchanged(s: Seq<char>)
    requires
        s.len() > 0,
        !char_is_whitespace(s[0]),
        !char_is_whitespace(s.last()),
    ensures
        trim_spec(s) == s,
{
}

/// Parses a decimal run as Rust's unsigned `FromStr` does, bounded by `max`.
pub fn parse_unsigned(s: &[char], max: u64) -> (r: Option<u64>)
    ensures
        match r {
            Some(v) => parse_unsigned_spec(s@, max as nat) == Some(v as nat),
            None => parse_unsigned_spec(s@, max as nat) is None,
        },
{
    let start: usize = if s.len() > 0 && s[0] == '+' { 1 } else { 0 };
    let ghost digits = if s@.len() > 0 && s@[0] == '+' { s@.drop_first() } else { s@ };
    assert(digits =~= s@.subrange(start as int, s@.len() as int));
    if start == s.len() {
        return None;
    }
    let mut value: u64 = 0;
    let mut i: usize = start;
    while i < s.len()
        invariant
            start <= i <= s@.len(),
            digits =~= s@.subrange(start as int, s@.len() as int),
            digits == (if s@.len() > 0 && s@[0] == '+' { s@.drop_first() } else { s@ }),
            all_digits(digits.take(i - start)),
            value as nat == decimal_value(digits.take(i - start)),
            value <= max,
        decreases s@.len() - i,
    {
        let c = s[i];
        if !('0' <= c && c <= '9') {
            assert(digits[i - start] == c);
            assert(!is_ascii_digit(digits[i - start]));
            assert(!all_digits(digits));
            assert(parse_unsigned_spec(s@, max as nat) is None);
            return None;
        }
        let d = (c as u32 - '0' as u32) as u64;
        assert(digits.take(i - start + 1).drop_last() =~= digits.take(i - start));
        assert(digits.take(i - start + 1).last() == c);
        if d > max || value > (max - d) / 10 {
            proof {
                assert(value * 10 + d > max) by (nonlinear_arith)
                    requires d > max || value > (max - d) / 10, d <= 9;
                if all_digits(digits) {
                    lemma_decimal_value_prefix_grows(digits, i - start + 1);
                }
            }
            return None;
        }
        proof {
            assert(value * 10 + d <= max) by (nonlinear_arith)
                requires value <= (max - d) / 10, d <= max;
        }
        value = value * 10 + d;
        i = i + 1;
    }
    assert(digits.take(i - start) =~= digits);
    Some(value)
}


/// Whether `c` has the Unicode `White_Space` property: the ASCII controls
/// from tab to carriage return, the space, next-line, no-break space, the
/// ogham space mark, the spaces from en quad to hair space, the line and
/// paragraph separators, the narrow no-break space, the medium mathematical
/// space and the ideographic space.
pub open spec fn char_is_whitespace(c: char) -> bool {
    let u = c as u32;
    ||| 0x9 <= u <= 0xD
    ||| u == 0x20
    ||| u == 0x85
    ||| u == 0xA0
    ||| u == 0x1680
    ||| 0x2000 <= u <= 0x200A
    ||| u == 0x2028
    ||| u == 0x2029
    ||| u == 0x202F
    ||| u == 0x205F
    ||| u == 0x3000
}

/// Whether `c` is white space, as `char::is_whitespace` decides it.
pub(crate) fn is_whitespace(c: char) -> (r: bool)
    ensures
        r == char_is_whitespace(c),
{
    let u = c as u32;
    (0x9 <= u && u <= 0xD) || u == 0x20 || u == 0x85 || u == 0xA0 || u == 0x1680
        || (0x2000 <= u && u <= 0x200A) || u == 0x2028 || u == 0x2029 || u == 0x202F || u == 0x205F
        || u == 0x3000
}

pub open spec fn trim_start_spec(s: Seq<char>) -> Seq<char>
    decreases s.len(),
{
    if s.len() > 0 && char_is_whitespace(s[0]) {
        trim_start_spec(s.drop_first())
    } else {
        s
    }
}

pub open spec fn trim_end_spec(s: Seq<char>) -> Seq<char>
    decreases s.len(),
{
    if s.len() > 0 && char_is_whitespace(s.last()) {
        trim_end_spec(s.drop_last())
    } else {
        s
    }
}

/// What `str::trim` leaves: leading and trailing whitespace removed.
pub open spec fn trim_spec(s: Seq<char>) -> Seq<char> {
    trim_end_spec(trim_start_spec(s))
}

/// The bounds of `cs` without its leading and trailing whitespace.
pub fn trim_bounds(cs: &[char]) -> (r: (usize, usize))
    ensures
        r.0 <= r.1 <= cs@.len(),
        cs@.subrange(r.0 as int, r.1 as int) == trim_spec(cs@),
{
    let n = cs.len();
    let mut i: usize = 0;
    assert(cs@.subrange(0, n as int) =~= cs@);
    while i < n && is_whitespace(cs[i])
        invariant
            i <= n == cs@.len(),
            trim_start_spec(cs@.subrange(i as int, n as int)) == trim_start_spec(cs@),
        decreases n - i,
    {
        assert(cs@.subrange(i as int, n as int).drop_first() =~= cs@.subrange(i + 1, n as int));
        i = i + 1;
    }
    assert(trim_start_spec(cs@.subrange(i as int, n as int)) == cs@.subrange(i as int, n as int));
    let mut j: usize = n;
    while j > i && is_whitespace(cs[j - 1])
        invariant
            i <= j <= n == cs@.len(),
            trim_end_spec(cs@.subrange(i as int, j as int)) == trim_spec(cs@),
        decreases j - i,
    {
        assert(cs@.subrange(i as int, j as int).drop_last() =~= cs@.subrange(i as int, j - 1));
        j = j - 1;
    }
    (i, j)
}

/// The characters of `s` with surrounding whitespace removed.
pub fn trimmed_chars(s: &str) -> (r: Vec<char>)
    ensures
        r@ == trim_spec(s@),
{
    let cs = chars_of(s);
    let (a, b) = trim_bounds(cs.as_slice());
    let mut out: Vec<char> = Vec::new();
    let mut k: usize = a;
    while k < b
        invariant
            a <= k <= b <= cs@.len(),
            out@ == cs@.subrange(a as int, k as int),
        decreases b - k,
    {
        out.push(cs[k]);
        assert(cs@.subrange(a as int, k + 1) =~= cs@.subrange(a as int, k as int).push(cs@[k as int]));
        k = k + 1;
    }
    out
}

pub open spec fn digit_char(d: nat) -> char
    recommends
        d < 10,
{
    ((d + '0' as u32) as u32) as char
}

/// The decimal spelling of `n`, as `Display` writes an unsigned integer.
pub open spec fn decimal_chars(n: nat) -> Seq<char>
    decreases n,
{
    if n < 10 {
        seq![digit_char(n)]
    } else {
        decimal_chars(n / 10).push(digit_char(n % 10))
    }
}

/// Appends the decimal spelling of `n` to `out`.
pub fn push_decimal(out: &mut Vec<char>, n: u64)
    ensures
        final(out)@ == old(out)@ + decimal_chars(n as nat),
    decreases n,
{
    if n >= 10 {
        push_decimal(out, n / 10);
    }
    let d = (n % 10) as u32;
    let c = char_from_digit(d);
    out.push(c);
    proof {
        if n >= 10 {
            assert(old(out)@ + decimal_chars(n as nat) =~= old(out)@ + decimal_chars((n / 10) as nat) + seq![c]);
        } else {
            assert(old(out)@ + decimal_chars(n as nat) =~= old(out)@ + seq![c]);
        }
    }
}

/// The decimal digit character for `d`.
pub fn char_from_digit(d: u32) -> (c: char)
    requires
        d < 10,
    ensures
        c == digit_char(d as nat),
{
    if d == 0 { '0' } else if d == 1 { '1' } else if d == 2 { '2' } else if d == 3 { '3' }
    else if d == 4 { '4' } else if d == 5 { '5' } else if d == 6 { '6' } else if d == 7 { '7' }
    else if d == 8 { '8' } else { '9' }
}

/// Appends `s` to `out`.
pub fn push_str_chars(out: &mut Vec<char>, s: &str)
    ensures
        final(out)@ == old(out)@ + s@,
{
    let cs = chars_of(s);
    push_slice(out, cs.as_slice());
}

/// Appends `cs` to `out`.
pub fn push_slice(out: &mut Vec<char>, cs: &[char])
    ensures
        final(out)@ == old(out)@ + cs@,
{
    let ghost start = out@;
    let mut k: usize = 0;
    while k < cs.len()
        invariant
            k <= cs@.len(),
            out@ == start + cs@.take(k as int),
        decreases cs@.len() - k,
    {
        out.push(cs[k]);
        assert(cs@.take(k + 1) =~= cs@.take(k as int).push(cs@[k as int]));
        k = k + 1;
    }
    assert(cs@.take(cs@.len() as int) =~= cs@);
}

pub open spec fn starts_with(s: Seq<char>, prefix: Seq<char>) -> bool {
    prefix.len() <= s.len() && s.subrange(0, prefix.len() as int) == prefix
}

pub open spec fn ends_with(s: Seq<char>, suffix: Seq<char>) -> bool {
    suffix.len() <= s.len() && s.subrange(s.len() - suffix.len(), s.len() as int) == suffix
}

pub open spec fn occurs_at(s: Seq<char>, needle: Seq<char>, i: int) -> bool {
    0 <= i && i + needle.len() <= s.len() && s.subrange(i, i + needle.len()) == needle
}

pub open spec fn contains_seq(s: Seq<char>, needle: Seq<char>) -> bool {
    exists|i: int| occurs_at(s, needle, i)
}

/// Whether `needle` occurs in `s` starting at index `i`.
pub fn occurs_at_exec(s: &[char], needle: &[char], i: usize) -> (r: bool)
    ensures
        r == occurs_at(s@, needle@, i as int),
{
    if i > s.len() || needle.len() > s.len() - i {
        return false;
    }
    let sl = s.len();
    let mut k: usize = 0;
    while k < needle.len()
        invariant
            sl == s@.len(),
            i + needle@.len() <= s@.len(),
            k <= needle@.len(),
            forall|j: int| 0 <= j < k ==> s@[i + j] == needle@[j],
        decreases needle@.len() - k,
    {
        if s[i + k] != needle[k] {
            assert(s@.subrange(i as int, i + needle@.len())[k as int] != needle@[k as int]);
            return false;
        }
        k = k + 1;
    }
    assert(s@.subrange(i as int, i + needle@.len()) =~= needle@);
    true
}

/// Whether `s` begins with `prefix`.
pub fn starts_with_exec(s: &[char], prefix: &[char]) -> (r: bool)
    ensures
        r == starts_with(s@, prefix@),
{
    occurs_at_exec(s, prefix, 0)
}

/// Whether `s` ends with `suffix`.
pub fn ends_with_exec(s: &[char], suffix: &[char]) -> (r: bool)
    ensures
        r == ends_with(s@, suffix@),
{
    if suffix.len() > s.len() {
        return false;
    }
    occurs_at_exec(s, suffix, s.len() - suffix.len())
}

/// Whether `needle` occurs anywhere in `s`.
pub fn contains_exec(s: &[char], needle: &[char]) -> (r: bool)
    ensures
        r == contains_seq(s@, needle@),
{
    if needle.len() > s.len() {
        return false;
    }
    let last = s.len() - needle.len();
    let mut i: usize = 0;
    loop
        invariant
            needle@.len() <= s@.len(),
            last == s@.len() - needle@.len(),
            i <= last,
            forall|j: int| 0 <= j < i ==> !occurs_at(s@, needle@, j),
        ensures
            forall|j: int| 0 <= j <= last ==> !occurs_at(s@, needle@, j),
        decreases last - i,
    {
        if occurs_at_exec(s, needle, i) {
            return true;
        }
        if i == last {
            break;
        }
        i = i + 1;
    }
    assert forall|j: int| !occurs_at(s@, needle@, j) by {
        if 0 <= j <= last {
        }
    }
    false
}

/// Whether the character `c` occurs in `s`.
pub fn contains_char(s: &[char], c: char) -> (r: bool)
    ensures
        r == s@.contains(c),
{
    let mut i: usize = 0;
    while i < s.len()
        invariant
            i <= s@.len(),
            forall|j: int| 0 <= j < i ==> s@[j] != c,
        decreases s@.len() - i,
    {
        if s[i] == c {
            return true;
        }
        i = i + 1;
    }
    false
}


pub open spec fn ascii_lower_of(c: char) -> char {
    if is_ascii_upper(c) { ((c as u32) + 32) as char } else { c }
}

/// What `to_ascii_lowercase` makes of a character sequence.
pub open spec fn ascii_lower_seq(s: Seq<char>) -> Seq<char> {
    s.map_values(|c: char| ascii_lower_of(c))
}

/// The ASCII-lowercased copy of `cs`.
pub fn ascii_lower(cs: &[char]) -> (r: Vec<char>)
    ensures
        r@ == ascii_lower_seq(cs@),
{
    let mut out: Vec<char> = Vec::new();
    let mut i: usize = 0;
    while i < cs.len()
        invariant
            i <= cs@.len(),
            out@ == ascii_lower_seq(cs@.take(i as int)),
        decreases cs@.len() - i,
    {
        let c = cs[i];
        let l = if 'A' <= c && c <= 'Z' { (((c as u32) + 32) as u8) as char } else { c };
        out.push(l);
        assert(ascii_lower_seq(cs@.take(i + 1)) =~= ascii_lower_seq(cs@.take(i as int)).push(ascii_lower_of(cs@[i as int])));
        i = i + 1;
    }
    assert(cs@.take(cs@.len() as int) =~= cs@);
    out
}

/// The parts joined with `sep` between each pair, as `[String]::join` does.
pub open spec fn join_spec(parts: Seq<Seq<char>>, sep: Seq<char>) -> Seq<char>
    decreases parts.len(),
{
    if parts.len() == 0 {
        Seq::empty()
    } else if parts.len() == 1 {
        parts[0]
    } else {
        join_spec(parts.drop_last(), sep) + sep + parts.last()
    }
}

pub open spec fn strings_view(v: Seq<String>) -> Seq<Seq<char>> {
    v.map_values(|s: String| s@)
}

/// Appends the parts joined with `sep`.
pub fn push_joined(out: &mut Vec<char>, parts: &[String], sep: &str)
    ensures
        final(out)@ == old(out)@ + join_spec(strings_view(parts@), sep@),
{
    let ghost start = out@;
    let mut i: usize = 0;
    while i < parts.len()
        invariant
            i <= parts@.len(),
            out@ == start + join_spec(strings_view(parts@.take(i as int)), sep@),
        decreases parts@.len() - i,
    {
        if i > 0 {
            push_str_chars(out, sep);
        }
        push_str_chars(out, parts[i].as_str());
        proof {
            let prev = strings_view(parts@.take(i as int));
            let next = strings_view(parts@.take(i + 1));
            assert(next.drop_last() =~= prev);
            assert(next.last() == parts@[i as int]@);
            if i == 0 {
                assert(next =~= seq![parts@[0]@]);
            }
        }
        i = i + 1;
    }
    assert(parts@.take(parts@.len() as int) =~= parts@);
}

/// The decimal spelling of a signed integer, with a leading `-` when negative.
pub open spec fn signed_decimal_chars(v: int) -> Seq<char> {
    if v < 0 { seq!['-'] + decimal_chars((-v) as nat) } else { decimal_chars(v as nat) }
}

/// Appends the decimal spelling of `v`.
pub fn push_signed_decimal(out: &mut Vec<char>, v: i64)
    ensures
        final(out)@ == old(out)@ + signed_decimal_chars(v as int),
{
    if v < 0 {
        out.push('-');
        let magnitude: u64 = if v == i64::MIN { 9_223_372_036_854_775_808u64 } else { (-v) as u64 };
        push_decimal(out, magnitude);
        assert(old(out)@ + signed_decimal_chars(v as int) =~= old(out)@.push('-') + decimal_chars(magnitude as nat));
    } else {
        push_decimal(out, v as u64);
    }
}

/// Collects `out` into a `String`.
pub fn into_string(out: Vec<char>) -> (s: String)
    ensures
        s@ == out@,
{
    string_from_chars(out.as_slice())
}


/// The maximal runs of non-whitespace characters, as `str::split_whitespace` yields them.
pub open spec fn words_of(s: Seq<char>) -> Seq<Seq<char>>
    decreases s.len(),
{
    if s.len() == 0 {
        Seq::empty()
    } else {
        let prev = words_of(s.drop_last());
        let c = s.last();
        if char_is_whitespace(c) {
            prev
        } else if s.len() >= 2 && !char_is_whitespace(s[s.len() - 2]) {
            prev.update(prev.len() - 1, prev.last().push(c))
        } else {
            prev.push(seq![c])
        }
    }
}

/// The whitespace-separated words of `cs`.
pub fn words(cs: &[char]) -> (r: Vec<Vec<char>>)
    ensures
        r@.len() == words_of(cs@).len(),
        forall|k: int| 0 <= k < r@.len() ==> (#[trigger] r@[k])@ == words_of(cs@)[k],
{
    let mut out: Vec<Vec<char>> = Vec::new();
    let mut prev_ws = true;
    let mut i: usize = 0;
    while i < cs.len()
        invariant
            i <= cs@.len(),
            out@.len() == words_of(cs@.take(i as int)).len(),
            forall|k: int| 0 <= k < out@.len() ==> (#[trigger] out@[k])@ == words_of(cs@.take(i as int))[k],
            prev_ws == (i == 0 || char_is_whitespace(cs@[i - 1])),
            !prev_ws ==> out@.len() > 0,
        decreases cs@.len() - i,
    {
        let c = cs[i];
        let ghost t = cs@.take(i + 1);
        assert(t.drop_last() =~= cs@.take(i as int));
        assert(t.last() == c);
        let ws = is_whitespace(c);
        if ws {
        } else if !prev_ws {
            let last = out.len() - 1;
            let mut w = out.remove(last);
            w.push(c);
            out.push(w);
            proof {
                assert(t[t.len() - 2] == cs@[i - 1]);
                let prev = words_of(cs@.take(i as int));
                assert forall|k: int| 0 <= k < out@.len() implies (#[trigger] out@[k])@ == words_of(t)[k] by {
                    if k < out@.len() - 1 {
                    } else {
                        assert(out@[k]@ == prev.last().push(c));
                    }
                }
            }
        } else {
            let mut w: Vec<char> = Vec::new();
            w.push(c);
            out.push(w);
            proof {
                if i > 0 {
                    assert(t[t.len() - 2] == cs@[i - 1]);
                }
                assert(out@[out@.len() - 1]@ =~= seq![c]);
            }
        }
        prev_ws = ws;
        i = i + 1;
    }
    assert(cs@.take(cs@.len() as int) =~= cs@);
    out
}

pub open spec fn char_seqs(v: Seq<Vec<char>>) -> Seq<Seq<char>> {
    v.map_values(|w: Vec<char>| w@)
}

/// Appends the words joined by single spaces.
pub fn push_words_joined(out: &mut Vec<char>, ws: &[Vec<char>])
    ensures
        final(out)@ == old(out)@ + join_spec(char_seqs(ws@), " "@),
{
    proof { reveal_strlit(" "); }
    let ghost start = out@;
    let mut i: usize = 0;
    while i < ws.len()
        invariant
            i <= ws@.len(),
            out@ == start + join_spec(char_seqs(ws@.take(i as int)), " "@),
        decreases ws@.len() - i,
    {
        if i > 0 {
            out.push(' ');
        }
        push_slice(out, ws[i].as_slice());
        proof {
            let prev = char_seqs(ws@.take(i as int));
            let next = char_seqs(ws@.take(i + 1));
            assert(next.drop_last() =~= prev);
            assert(next.last() == ws@[i as int]@);
            if i == 0 {
                assert(next =~= seq![ws@[0]@]);
            } else {
                reveal_strlit(" ");
                assert(" "@ =~= seq![' ']);
            }
        }
        i = i + 1;
    }
    assert(ws@.take(ws@.len() as int) =~= ws@);
}


/// `x` comes before `y` in the order `<` gives strings: at the first position
/// where they differ `x` has the smaller character, or `x` is a proper prefix of `y`.
pub open spec fn lex_lt(x: Seq<char>, y: Seq<char>) -> bool {
    ||| exists|i: int| 0 <= i < x.len() && i < y.len() && x.take(i) == y.take(i) && (#[trigger] x[i] as u32) < (y[i] as u32)
    ||| (x.len() < y.len() && y.take(x.len() as int) == x)
}

proof fn lemma_lex_first_difference(x: Seq<char>, y: Seq<char>, i: int)
    requires
        0 <= i < x.len(),
        i < y.len(),
        x.take(i) == y.take(i),
        x[i] != y[i],
    ensures
        lex_lt(x, y) == ((x[i] as u32) < (y[i] as u32)),
{
    if (x[i] as u32) < (y[i] as u32) {
        assert(exists|j: int| 0 <= j < x.len() && j < y.len() && x.take(j) == y.take(j) && (#[trigger] x[j] as u32) < (y[j] as u32));
    } else {
        assert forall|j: int| 0 <= j < x.len() && j < y.len() && x.take(j) == y.take(j)
            implies !((#[trigger] x[j] as u32) < (y[j] as u32)) by {
            if j < i {
                assert(x[j] == x.take(i)[j]);
                assert(y[j] == y.take(i)[j]);
            } else if j > i {
                assert(x[i] == x.take(j)[i]);
                assert(y[i] == y.take(j)[i]);
            }
        }
        if x.len() < y.len() && y.take(x.len() as int) == x {
            assert(y.take(x.len() as int)[i] == y[i]);
        }
    }
}

proof fn lemma_lex_common_prefix(x: Seq<char>, y: Seq<char>, i: int)
    requires
        0 <= i <= x.len(),
        i <= y.len(),
        x.take(i) == y.take(i),
        i == x.len() || i == y.len(),
    ensures
        lex_lt(x, y) == (i == x.len() && i < y.len()),
{
    assert forall|j: int| 0 <= j < x.len() && j < y.len() && x.take(j) == y.take(j)
        implies !((#[trigger] x[j] as u32) < (y[j] as u32)) by {
        assert(x[j] == x.take(i)[j]);
        assert(y[j] == y.take(i)[j]);
    }
    if i == x.len() {
        assert(x.take(i) =~= x);
    }
    if x.len() < y.len() && y.take(x.len() as int) == x {
        assert(i == x.len());
    }
}

/// No sequence comes before itself.
pub proof fn lemma_lex_irreflexive(x: Seq<char>)
    ensures
        !lex_lt(x, x),
{
}

/// The order on sequences is transitive.
pub proof fn lemma_lex_transitive(x: Seq<char>, y: Seq<char>, z: Seq<char>)
    requires
        lex_lt(x, y),
        lex_lt(y, z),
    ensures
        lex_lt(x, z),
{
    let i = if exists|i: int| 0 <= i < x.len() && i < y.len() && x.take(i) == y.take(i) && (#[trigger] x[i] as u32) < (y[i] as u32) {
        choose|i: int| 0 <= i < x.len() && i < y.len() && x.take(i) == y.take(i) && (#[trigger] x[i] as u32) < (y[i] as u32)
    } else {
        x.len() as int
    };
    let j = if exists|j: int| 0 <= j < y.len() && j < z.len() && y.take(j) == z.take(j) && (#[trigger] y[j] as u32) < (z[j] as u32) {
        choose|j: int| 0 <= j < y.len() && j < z.len() && y.take(j) == z.take(j) && (#[trigger] y[j] as u32) < (z[j] as u32)
    } else {
        y.len() as int
    };
    // i: x and y agree before i; at i either x is smaller or x ends there.
    assert(x.take(i) == y.take(i) && i <= x.len() && i < y.len());
    assert(y.take(j) == z.take(j) && j <= y.len() && j < z.len());
    if i < j {
        assert(x.take(i) =~= z.take(i)) by {
            assert forall|k: int| 0 <= k < i implies x.take(i)[k] == z.take(i)[k] by {
                assert(x.take(i)[k] == y.take(i)[k]);
                assert(y[k] == y.take(j)[k]);
                assert(z[k] == z.take(j)[k]);
            }
        }
        if i < x.len() && (x[i] as u32) < (y[i] as u32) {
            assert(y[i] == y.take(j)[i]);
            assert(z[i] == z.take(j)[i]);
            assert((x[i] as u32) < (z[i] as u32));
        } else {
            assert(i == x.len());
            assert(z.take(x.len() as int) =~= x);
        }
    } else if j < i {
        assert(j < x.len());
        assert(x.take(j) =~= z.take(j)) by {
            assert forall|k: int| 0 <= k < j implies x.take(j)[k] == z.take(j)[k] by {
                assert(x[k] == x.take(i)[k]);
                assert(y[k] == y.take(i)[k]);
                assert(y.take(j)[k] == z.take(j)[k]);
            }
        }
        assert(x[j] == x.take(i)[j]);
        assert(y[j] == y.take(i)[j]);
        assert((y[j] as u32) < (z[j] as u32));
        assert((x[j] as u32) < (z[j] as u32));
    } else {
        assert(x.take(i) =~= z.take(i));
        if i < x.len() && (x[i] as u32) < (y[i] as u32) {
            assert((y[i] as u32) < (z[i] as u32));
            assert((x[i] as u32) < (z[i] as u32));
        } else {
            assert(z.take(x.len() as int) =~= x);
        }
    }
}

/// Of two different sequences one comes first.
pub proof fn lemma_lex_total(x: Seq<char>, y: Seq<char>)
    ensures
        x == y || lex_lt(x, y) || lex_lt(y, x),
{
    assert(x.take(0) =~= y.take(0));
    lemma_lex_total_from(x, y, 0);
}

proof fn lemma_lex_total_from(x: Seq<char>, y: Seq<char>, k: int)
    requires
        0 <= k <= x.len(),
        k <= y.len(),
        x.take(k) == y.take(k),
    ensures
        x == y || lex_lt(x, y) || lex_lt(y, x),
    decreases x.len() - k,
{
    if k == x.len() && k == y.len() {
        assert(x =~= x.take(k));
        assert(y =~= y.take(k));
    } else if k == x.len() {
        assert(x =~= x.take(k));
        assert(y.take(x.len() as int) == x);
    } else if k == y.len() {
        assert(y =~= y.take(k));
        assert(x.take(y.len() as int) == y);
    } else if x[k] != y[k] {
        if (x[k] as u32) < (y[k] as u32) {
            assert(lex_lt(x, y));
        } else {
            vstd::utf8::char_u32_cast(x[k], x[k] as u32);
            vstd::utf8::char_u32_cast(y[k], y[k] as u32);
            assert((y[k] as u32) < (x[k] as u32));
            assert(y.take(k) == x.take(k));
            assert(lex_lt(y, x));
        }
    } else {
        assert(x.take(k + 1) =~= x.take(k).push(x[k]));
        assert(y.take(k + 1) =~= y.take(k).push(y[k]));
        lemma_lex_total_from(x, y, k + 1);
    }
}

/// The order facts about three sequences, each stated as an implication.
pub proof fn lemma_lex_facts(a: Seq<char>, b: Seq<char>, c: Seq<char>)
    ensures
        !lex_lt(a, a) && !lex_lt(b, b) && !lex_lt(c, c),
        a == b || lex_lt(a, b) || lex_lt(b, a),
        b == c || lex_lt(b, c) || lex_lt(c, b),
        a == c || lex_lt(a, c) || lex_lt(c, a),
        lex_lt(a, b) && lex_lt(b, c) ==> lex_lt(a, c),
        lex_lt(a, c) && lex_lt(c, b) ==> lex_lt(a, b),
        lex_lt(b, a) && lex_lt(a, c) ==> lex_lt(b, c),
        lex_lt(b, c) && lex_lt(c, a) ==> lex_lt(b, a),
        lex_lt(c, a) && lex_lt(a, b) ==> lex_lt(c, b),
        lex_lt(c, b) && lex_lt(b, a) ==> lex_lt(c, a),
        lex_lt(a, b) ==> !lex_lt(b, a),
        lex_lt(b, c) ==> !lex_lt(c, b),
        lex_lt(a, c) ==> !lex_lt(c, a),
{
    lemma_lex_irreflexive(a);
    lemma_lex_irreflexive(b);
    lemma_lex_irreflexive(c);
    lemma_lex_total(a, b);
    lemma_lex_total(b, c);
    lemma_lex_total(a, c);
    if lex_lt(a, b) && lex_lt(b, c) { lemma_lex_transitive(a, b, c); }
    if lex_lt(a, c) && lex_lt(c, b) { lemma_lex_transitive(a, c, b); }
    if lex_lt(b, a) && lex_lt(a, c) { lemma_lex_transitive(b, a, c); }
    if lex_lt(b, c) && lex_lt(c, a) { lemma_lex_transitive(b, c, a); }
    if lex_lt(c, a) && lex_lt(a, b) { lemma_lex_transitive(c, a, b); }
    if lex_lt(c, b) && lex_lt(b, a) { lemma_lex_transitive(c, b, a); }
    if lex_lt(a, b) && lex_lt(b, a) { lemma_lex_transitive(a, b, a); }
    if lex_lt(b, c) && lex_lt(c, b) { lemma_lex_transitive(b, c, b); }
    if lex_lt(a, c) && lex_lt(c, a) { lemma_lex_transitive(a, c, a); }
}

/// Compares two strings as `<` on `str` does.
pub fn str_lt(a: &str, b: &str) -> (r: bool)
    ensures
        r == lex_lt(a@, b@),
{
    let x = chars_of(a);
    let y = chars_of(b);
    let mut i: usize = 0;
    while i < x.len() && i < y.len()
        invariant
            x@ == a@,
            y@ == b@,
            i <= x@.len(),
            i <= y@.len(),
            x@.take(i as int) == y@.take(i as int),
        decreases x@.len() - i,
    {
        if x[i] != y[i] {
            proof { lemma_lex_first_difference(x@, y@, i as int); }
            return (x[i] as u32) < (y[i] as u32);
        }
        assert(x@.take(i + 1) =~= x@.take(i as int).push(x@[i as int]));
        assert(y@.take(i + 1) =~= y@.take(i as int).push(y@[i as int]));
        i = i + 1;
    }
    proof { lemma_lex_common_prefix(x@, y@, i as int); }
    i == x.len() && i < y.len()
}

/// Rust's `{:0w}` for an unsigned value: the decimal digits, with zeros in
/// front up to width `w`.
pub open spec fn zero_padded(n: nat, w: nat) -> Seq<char> {
    let d = decimal_chars(n);
    if d.len() >= w { d } else { Seq::new((w - d.len()) as nat, |i: int| '0') + d }
}

/// Exactly `w` digits of `n`, least significant last.
pub open spec fn fixed_digits(n: nat, w: nat) -> Seq<char>
    decreases w,
{
    if w == 0 { Seq::empty() } else { fixed_digits(n / 10, (w - 1) as nat).push(digit_char(n % 10)) }
}

pub open spec fn pow10(w: nat) -> nat
    decreases w,
{
    if w == 0 { 1 } else { 10 * pow10((w - 1) as nat) }
}

proof fn lemma_decimal_len(n: nat)
    ensures
        decimal_chars(n).len() >= 1,
        forall|w: nat| n < #[trigger] pow10(w) && w >= 1 ==> decimal_chars(n).len() <= w,
        forall|w: nat| #[trigger] pow10(w) <= n ==> decimal_chars(n).len() > w,
    decreases n,
{
    if n >= 10 {
        lemma_decimal_len(n / 10);
        assert forall|w: nat| n < #[trigger] pow10(w) && w >= 1 implies decimal_chars(n).len() <= w by {
            if w == 1 {
                assert(pow10(1) == 10) by { reveal_with_fuel(pow10, 2); }
            } else {
                let w1 = (w - 1) as nat;
                assert(pow10(w) == 10 * pow10(w1));
                assert(n / 10 < pow10(w1));
            }
        }
        assert forall|w: nat| #[trigger] pow10(w) <= n implies decimal_chars(n).len() > w by {
            if w == 0 {
            } else {
                let w1 = (w - 1) as nat;
                assert(pow10(w) == 10 * pow10(w1));
                assert(pow10(w1) <= n / 10);
            }
        }
    } else {
        assert forall|w: nat| #[trigger] pow10(w) <= n implies decimal_chars(n).len() > w by {
            if w > 0 {
                let w1 = (w - 1) as nat;
                assert(pow10(w) == 10 * pow10(w1));
                assert(pow10(w1) >= 1) by { lemma_pow10_positive(w1); }
            }
        }
    }
}

proof fn lemma_pow10_positive(w: nat)
    ensures
        pow10(w) >= 1,
    decreases w,
{
    if w > 0 {
        lemma_pow10_positive((w - 1) as nat);
    }
}

/// Below `10^w`, the zero-padded spelling is exactly `w` digits.
pub proof fn lemma_zero_padded_fixed(n: nat, w: nat)
    requires
        n < pow10(w),
        w >= 1,
    ensures
        zero_padded(n, w) == fixed_digits(n, w),
    decreases w,
{
    lemma_decimal_len(n);
    if n < 10 {
        if w == 1 {
            assert(fixed_digits(n, 1) =~= fixed_digits(0, 0).push(digit_char(n)));
            assert(zero_padded(n, 1) =~= seq![digit_char(n)]);
        } else {
            let w1 = (w - 1) as nat;
            assert(n / 10 == 0);
            lemma_pow10_positive(w1);
            lemma_fixed_zero(w1);
            assert(zero_padded(n, w) =~= fixed_digits(0, w1).push(digit_char(n)));
        }
    } else {
        let w1 = (w - 1) as nat;
        assert(pow10(w) == 10 * pow10(w1));
        assert(n / 10 < pow10(w1));
        assert(w1 >= 1) by {
            if w1 == 0 { assert(pow10(0) == 1); }
        }
        lemma_zero_padded_fixed(n / 10, w1);
        lemma_decimal_len(n / 10);
        let d = decimal_chars(n / 10);
        assert(decimal_chars(n) == d.push(digit_char(n % 10)));
        if d.len() >= w1 {
            assert(zero_padded(n, w) =~= zero_padded(n / 10, w1).push(digit_char(n % 10)));
        } else {
            assert(zero_padded(n, w) =~= zero_padded(n / 10, w1).push(digit_char(n % 10)));
        }
    }
}

proof fn lemma_fixed_zero(w: nat)
    ensures
        fixed_digits(0, w) == Seq::new(w, |i: int| '0'),
    decreases w,
{
    if w > 0 {
        lemma_fixed_zero((w - 1) as nat);
        assert(fixed_digits(0, w) =~= Seq::new(w, |i: int| '0'));
    } else {
        assert(fixed_digits(0, w) =~= Seq::new(w, |i: int| '0'));
    }
}

/// Fixed-width digit strings order as their values do.
pub proof fn lemma_fixed_digits_order(a: nat, b: nat, w: nat)
    requires
        a < b < pow10(w),
    ensures
        fixed_digits(a, w).len() == w,
        fixed_digits(b, w).len() == w,
        exists|i: int| 0 <= i < w && fixed_digits(a, w).take(i) == fixed_digits(b, w).take(i)
            && (#[trigger] fixed_digits(a, w)[i] as u32) < (fixed_digits(b, w)[i] as u32),
    decreases w,
{
    lemma_fixed_len(a, w);
    lemma_fixed_len(b, w);
    if w == 0 {
        assert(pow10(0) == 1);
    } else {
        let w1 = (w - 1) as nat;
        let fa = fixed_digits(a, w);
        let fb = fixed_digits(b, w);
        assert(pow10(w) == 10 * pow10(w1));
        if a / 10 < b / 10 {
            lemma_fixed_digits_order(a / 10, b / 10, w1);
            let i = choose|i: int| 0 <= i < w1 && fixed_digits(a / 10, w1).take(i) == fixed_digits(b / 10, w1).take(i)
                && (#[trigger] fixed_digits(a / 10, w1)[i] as u32) < (fixed_digits(b / 10, w1)[i] as u32);
            assert(fa.take(i) =~= fixed_digits(a / 10, w1).take(i));
            assert(fb.take(i) =~= fixed_digits(b / 10, w1).take(i));
            assert(fa[i] == fixed_digits(a / 10, w1)[i]);
            assert(fb[i] == fixed_digits(b / 10, w1)[i]);
        } else {
            assert(a / 10 == b / 10);
            assert(a % 10 < b % 10);
            let i = w1 as int;
            assert(fa.take(i) =~= fixed_digits(a / 10, w1));
            assert(fb.take(i) =~= fixed_digits(b / 10, w1));
            assert(fa[i] == digit_char(a % 10));
            assert(fb[i] == digit_char(b % 10));
        }
    }
}

pub proof fn lemma_fixed_len(n: nat, w: nat)
    ensures
        fixed_digits(n, w).len() == w,
    decreases w,
{
    if w > 0 {
        lemma_fixed_len(n / 10, (w - 1) as nat);
    }
}

/// The number of decimal digits of `n`.
pub fn decimal_len(n: u64) -> (r: usize)
    ensures
        r == decimal_chars(n as nat).len(),
    decreases n,
{
    if n < 10 {
        1
    } else {
        proof { lemma_decimal_len(n as nat); }
        let k = decimal_len(n / 10);
        proof {
            lemma_pow10_twenty();
        }
        k + 1
    }
}

proof fn lemma_pow10_twenty()
    ensures
        pow10(20) == 100000000000000000000,
{
    reveal_with_fuel(pow10, 21);
}

/// Appends `n` as `{:0w}` spells it.
pub fn push_zero_padded(out: &mut Vec<char>, n: u64, w: usize)
    ensures
        final(out)@ == old(out)@ + zero_padded(n as nat, w as nat),
{
    let len = decimal_len(n);
    let ghost start = out@;
    if len < w {
        let mut k: usize = 0;
        while k < w - len
            invariant
                k <= w - len,
                out@ == start + Seq::new(k as nat, |i: int| '0'),
            decreases w - len - k,
        {
            out.push('0');
            assert(start + Seq::new((k + 1) as nat, |i: int| '0') =~= (start + Seq::new(k as nat, |i: int| '0')).push('0'));
            k = k + 1;
        }
    }
    let ghost mid = out@;
    push_decimal(out, n);
    assert(out@ =~= start + zero_padded(n as nat, w as nat));
}

/// `x` inserted into sorted `s` after every name it does not sort before.
pub open spec fn insert_sorted_name(s: Seq<Seq<char>>, x: Seq<char>) -> Seq<Seq<char>>
    decreases s.len(),
{
    if s.len() == 0 {
        seq![x]
    } else if lex_lt(x, s.last()) {
        insert_sorted_name(s.drop_last(), x).push(s.last())
    } else {
        s.push(x)
    }
}

/// The names in ascending order, as `sort` orders paths of one directory.
pub open spec fn sort_names(s: Seq<Seq<char>>) -> Seq<Seq<char>>
    decreases s.len(),
{
    if s.len() == 0 {
        Seq::empty()
    } else {
        insert_sorted_name(sort_names(s.drop_last()), s.last())
    }
}

/// The strings in ascending order; equal ones keep their relative order.
pub fn sorted_strings(names: Vec<String>) -> (r: Vec<String>)
    ensures
        strings_view(r@) == sort_names(strings_view(names@)),
{
    let ghost v = strings_view(names@);
    let mut out: Vec<String> = Vec::new();
    let mut i: usize = 0;
    while i < names.len()
        invariant
            i <= names@.len(),
            v == strings_view(names@),
            strings_view(out@) == sort_names(v.take(i as int)),
        decreases names@.len() - i,
    {
        let x = names[i].clone();
        let ghost o = strings_view(out@);
        let mut j: usize = out.len();
        assert(o.skip(j as int) =~= Seq::<Seq<char>>::empty());
        assert(o.take(j as int) =~= o);
        while j > 0 && str_lt(x.as_str(), out[j - 1].as_str())
            invariant
                j <= out@.len(),
                o == strings_view(out@),
                insert_sorted_name(o, x@) == insert_sorted_name(o.take(j as int), x@) + o.skip(j as int),
            decreases j,
        {
            assert(o.take(j as int).drop_last() =~= o.take(j - 1));
            assert(o.take(j as int).last() == o[j - 1]);
            assert(o.skip(j - 1) =~= seq![o[j - 1]] + o.skip(j as int));
            j = j - 1;
        }
        proof {
            if j > 0 {
                assert(o.take(j as int).last() == o[j - 1]);
            }
        }
        out.insert(j, x);
        proof {
            assert(strings_view(out@) =~= o.take(j as int) + seq![x@] + o.skip(j as int));
            assert(v.take(i + 1).drop_last() =~= v.take(i as int));
            assert(v.take(i + 1).last() == x@);
            assert(strings_view(out@) =~= insert_sorted_name(o, x@));
        }
        i = i + 1;
    }
    assert(v.take(v.len() as int) =~= v);
    out
}

/// No name of `s` comes after a later one.
pub open spec fn names_ascending(s: Seq<Seq<char>>) -> bool {
    forall|i: int, j: int| 0 <= i < j < s.len() ==> !lex_lt(#[trigger] s[j], #[trigger] s[i])
}

proof fn lemma_not_after_chain(x: Seq<char>, y: Seq<char>, z: Seq<char>)
    requires
        !lex_lt(x, y),
        !lex_lt(y, z),
    ensures
        !lex_lt(x, z),
{
    lemma_lex_total(x, y);
    lemma_lex_total(y, z);
    if lex_lt(x, z) {
        if x == y {
        } else if y == z {
        } else {
            lemma_lex_transitive(z, y, x);
            lemma_lex_transitive(x, z, x);
            lemma_lex_irreflexive(x);
        }
    }
}

pub proof fn lemma_insert_sorted_name(s: Seq<Seq<char>>, x: Seq<char>)
    requires
        names_ascending(s),
    ensures
        names_ascending(insert_sorted_name(s, x)),
        insert_sorted_name(s, x).len() == s.len() + 1,
        forall|k: int| 0 <= k < insert_sorted_name(s, x).len() ==>
            (#[trigger] insert_sorted_name(s, x)[k] == x || exists|m: int| 0 <= m < s.len() && s[m] == insert_sorted_name(s, x)[k]),
    decreases s.len(),
{
    let r = insert_sorted_name(s, x);
    if s.len() == 0 {
    } else if lex_lt(x, s.last()) {
        let d = s.drop_last();
        assert(names_ascending(d));
        lemma_insert_sorted_name(d, x);
        let p = insert_sorted_name(d, x);
        assert forall|i: int, j: int| 0 <= i < j < r.len() implies !lex_lt(#[trigger] r[j], #[trigger] r[i]) by {
            if j == r.len() - 1 {
                assert(r[j] == s.last());
                assert(r[i] == p[i]);
                if p[i] == x {
                    if lex_lt(s.last(), x) {
                        lemma_lex_transitive(x, s.last(), x);
                        lemma_lex_irreflexive(x);
                    }
                } else {
                    let m = choose|m: int| 0 <= m < d.len() && d[m] == p[i];
                    assert(s[m] == d[m]);
                    assert(!lex_lt(s[s.len() - 1], s[m]));
                }
            } else {
                assert(r[i] == p[i] && r[j] == p[j]);
            }
        }
        assert forall|k: int| 0 <= k < r.len() implies
            (#[trigger] r[k] == x || exists|m: int| 0 <= m < s.len() && s[m] == r[k]) by {
            if k == r.len() - 1 {
                assert(s[s.len() - 1] == r[k]);
            } else {
                assert(r[k] == p[k]);
                if p[k] != x {
                    let m = choose|m: int| 0 <= m < d.len() && d[m] == p[k];
                    assert(s[m] == d[m]);
                }
            }
        }
    } else {
        assert forall|i: int, j: int| 0 <= i < j < r.len() implies !lex_lt(#[trigger] r[j], #[trigger] r[i]) by {
            if j == r.len() - 1 {
                assert(r[j] == x);
                assert(r[i] == s[i]);
                if i < s.len() - 1 {
                    assert(!lex_lt(s[s.len() - 1], s[i]));
                    lemma_not_after_chain(x, s.last(), s[i]);
                }
            } else {
                assert(r[i] == s[i] && r[j] == s[j]);
            }
        }
        assert forall|k: int| 0 <= k < r.len() implies
            (#[trigger] r[k] == x || exists|m: int| 0 <= m < s.len() && s[m] == r[k]) by {
            if k < s.len() {
                assert(s[k] == r[k]);
            }
        }
    }
}

pub proof fn lemma_sort_names(s: Seq<Seq<char>>)
    ensures
        names_ascending(sort_names(s)),
        sort_names(s).len() == s.len(),
    decreases s.len(),
{
    if s.len() > 0 {
        lemma_sort_names(s.drop_last());
        lemma_insert_sorted_name(sort_names(s.drop_last()), s.last());
    }
}

} // verus!
