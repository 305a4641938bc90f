//! The Zellij terminal engine's pane bookkeeping and the text it exchanges
//! with the Zellij command line.
use vstd::prelude::*;

use crate::digest::{hex_prefix, lower_hex, sha256, sha256_digest};
use crate::network::{lowercase, unicode_lowercase};
use crate::text::{
    char_is_whitespace, char_seqs, chars_eq, chars_of, contains_char, decimal_chars, into_string,
    is_ascii_digit, push_decimal, push_slice, push_str_chars, push_words_joined, starts_with,
    starts_with_exec, string_from_chars, strings_view, trim_bounds, trim_spec, words, words_of,
};

verus! {

/// The bundled Zellij release.
pub const ZELLIJ_VERSION: &'static str = "0.45.0";

#[derive(Debug, Clone, Copy, PartialEq, Eq, Structural)]
pub enum ZellijEnginePhase {
    Stopped,
    Starting,
    Running,
    Reattaching,
    Failed,
}

#[derive(Debug, Clone, Copy, PartialEq, Eq, Structural)]
pub enum ZellijPanePhase {
    Starting,
    Running,
    Exited,
    Closing,
}

/// A terminal pane identity, `terminal_<digits>`.
#[derive(Debug, Clone, PartialEq, Eq, Hash)]
pub struct ZellijPaneId(String);

/// A trimmed `terminal_<digits>` names a terminal pane.
pub open spec fn pane_id_spec(value: Seq<char>) -> Option<Seq<char>> {
    let t = trim_spec(value);
    if starts_with(t, "terminal_"@) && t.len() > 9 && crate::text::all_digits(t.subrange(9, t.len() as int)) {
        Some(t)
    } else {
        None
    }
}

impl ZellijPaneId {
    pub closed spec fn id_view(&self) -> Seq<char> {
        self.0@
    }

    /// Reads a pane identity Zellij printed, refusing plugin panes and anything malformed.
    pub fn parse(value: &str) -> (r: Result<Self, String>)
        ensures
            match pane_id_spec(value@) {
                Some(id) => r matches Ok(p) && p.id_view() == id,
                None => r is Err,
            },
            r matches Err(e) ==> (if starts_with(trim_spec(value@), "terminal_"@) {
                e@ == "Zellij returned an invalid terminal pane identity"@
            } else {
                e@ == "Zellij returned a non-terminal pane identity"@
            }),
    {
        let cs = chars_of(value);
        Self::parse_chars(cs.as_slice())
    }

    fn parse_chars(cs: &[char]) -> (r: Result<Self, String>)
        ensures
            match pane_id_spec(cs@) {
                Some(id) => r matches Ok(p) && p.id_view() == id,
                None => r is Err,
            },
            r matches Err(e) ==> (if starts_with(trim_spec(cs@), "terminal_"@) {
                e@ == "Zellij returned an invalid terminal pane identity"@
            } else {
                e@ == "Zellij returned a non-terminal pane identity"@
            }),
    {
        proof { reveal_strlit("terminal_"); }
        let (a, b) = trim_bounds(cs);
        let t = &cs[a..b];
        let prefix = chars_of("terminal_");
        if !starts_with_exec(t, prefix.as_slice()) {
            return Err("Zellij returned a non-terminal pane identity".to_owned());
        }
        let suffix = &t[9..t.len()];
        let mut ok = suffix.len() > 0;
        let mut i: usize = 0;
        while i < suffix.len()
            invariant
                i <= suffix@.len(),
                ok == (suffix@.len() > 0 && forall|j: int| 0 <= j < i ==> is_ascii_digit(#[trigger] suffix@[j])),
            decreases suffix@.len() - i,
        {
            if !('0' <= suffix[i] && suffix[i] <= '9') {
                ok = false;
            }
            i = i + 1;
        }
        if !ok {
            return Err("Zellij returned an invalid terminal pane identity".to_owned());
        }
        let mut out: Vec<char> = Vec::new();
        push_slice(&mut out, t);
        Ok(ZellijPaneId(into_string(out)))
    }

    pub fn as_str(&self) -> (r: &str)
        ensures
            r@ == self.id_view(),
    {
        self.0.as_str()
    }

    /// The identity of terminal pane number `n`.
    pub fn terminal(n: u32) -> (r: Self)
        ensures
            r.id_view() == "terminal_"@ + decimal_chars(n as nat),
    {
        let mut out: Vec<char> = Vec::new();
        push_str_chars(&mut out, "terminal_");
        push_decimal(&mut out, n as u64);
        ZellijPaneId(into_string(out))
    }

    pub(crate) fn duplicate(&self) -> (r: Self)
        ensures
            r.id_view() == self.id_view(),
    {
        ZellijPaneId(self.0.clone())
    }
}

/// One pane Zellij lists.
#[derive(Debug, Clone, PartialEq, Eq)]
pub struct ZellijPaneInfo {
    pub id: u32,
    pub is_plugin: bool,
    pub is_fullscreen: bool,
    pub title: String,
    pub exited: bool,
    pub exit_status: Option<i32>,
    pub pane_command: Option<String>,
    pub pane_cwd: Option<String>,
    pub pane_rows: u16,
    pub pane_columns: u16,
}

impl ZellijPaneInfo {
    /// The terminal identity of this pane; plugin panes have none.
    pub fn pane_id(&self) -> (r: Option<ZellijPaneId>)
        ensures
            self.is_plugin ==> r is None,
            !self.is_plugin ==> (r matches Some(p) && p.id_view() == "terminal_"@ + decimal_chars(self.id as nat)),
    {
        if self.is_plugin {
            None
        } else {
            Some(ZellijPaneId::terminal(self.id))
        }
    }
}

/// What a new agent pane runs.
#[derive(Debug, Clone)]
pub struct ZellijLaunchSpec {
    pub session_id: String,
    pub executable: String,
    pub args: Vec<String>,
    pub cwd: String,
    /// Environment, sorted by name.
    pub env: Vec<(String, String)>,
}

pub open spec fn has_nul(s: Seq<char>) -> bool {
    s.contains('\0')
}

/// A launch is refused when its session or executable is blank, any field holds
/// a NUL, or an environment name is blank or holds `=`.
pub open spec fn launch_spec_valid(l: ZellijLaunchSpec) -> bool {
    &&& trim_spec(l.session_id@).len() > 0
    &&& !has_nul(l.session_id@)
    &&& trim_spec(l.executable@).len() > 0
    &&& !has_nul(l.executable@)
    &&& l.cwd@.len() > 0
    &&& !has_nul(l.cwd@)
    &&& forall|i: int| 0 <= i < l.args@.len() ==> !has_nul((#[trigger] l.args@[i])@)
    &&& forall|i: int| 0 <= i < l.env@.len() ==> {
        let (k, v) = #[trigger] l.env@[i];
        trim_spec(k@).len() > 0 && !k@.contains('=') && !has_nul(k@) && !has_nul(v@)
    }
}

/// A launch's arguments and environment values are refused only for a NUL:
/// two launches alike in session, executable, directory and environment
/// names, whose arguments and environment values hold no NUL, are both
/// accepted or both refused, whatever else those arguments and values hold
/// (`--model=gpt-5`, spaces, quotes, an empty argument).
pub proof fn law_only_a_nul_spoils_an_argument_or_a_value(a: ZellijLaunchSpec, b: ZellijLaunchSpec)
    requires
        a.session_id@ == b.session_id@,
        a.executable@ == b.executable@,
        a.cwd@ == b.cwd@,
        a.env@.len() == b.env@.len(),
        forall|i: int| 0 <= i < a.env@.len() ==> (#[trigger] a.env@[i]).0@ == b.env@[i].0@,
        forall|i: int| 0 <= i < a.args@.len() ==> !(#[trigger] a.args@[i])@.contains('\0'),
        forall|i: int| 0 <= i < b.args@.len() ==> !(#[trigger] b.args@[i])@.contains('\0'),
        forall|i: int| 0 <= i < a.env@.len() ==> !(#[trigger] a.env@[i]).1@.contains('\0'),
        forall|i: int| 0 <= i < b.env@.len() ==> !(#[trigger] b.env@[i]).1@.contains('\0'),
    ensures
        launch_spec_valid(a) == launch_spec_valid(b),
{
    if launch_spec_valid(a) {
        assert forall|i: int| 0 <= i < b.env@.len() implies {
            let (k, v) = #[trigger] b.env@[i];
            trim_spec(k@).len() > 0 && !k@.contains('=') && !has_nul(k@) && !has_nul(v@)
        } by {
            assert(a.env@[i].0@ == b.env@[i].0@);
        }
    }
    if launch_spec_valid(b) {
        assert forall|i: int| 0 <= i < a.env@.len() implies {
            let (k, v) = #[trigger] a.env@[i];
            trim_spec(k@).len() > 0 && !k@.contains('=') && !has_nul(k@) && !has_nul(v@)
        } by {
            assert(a.env@[i].0@ == b.env@[i].0@);
        }
    }
}

/// A launch is refused when any of its texts holds a NUL, when its session
/// or executable is blank, when its directory is empty, or when an
/// environment name is blank or holds `=`; one with none of these is
/// accepted.
pub proof fn law_what_refuses_a_launch(l: ZellijLaunchSpec)
    ensures
        l.session_id@.contains('\0') || l.executable@.contains('\0') || l.cwd@.contains('\0')
            || (exists|i: int| 0 <= i < l.args@.len() && (#[trigger] l.args@[i])@.contains('\0'))
            || (exists|i: int| 0 <= i < l.env@.len() && ((#[trigger] l.env@[i]).0@.contains('\0') || l.env@[i].1@.contains('\0')))
            ==> !launch_spec_valid(l),
        trim_spec(l.session_id@).len() == 0 || trim_spec(l.executable@).len() == 0 || l.cwd@.len() == 0
            ==> !launch_spec_valid(l),
        (exists|i: int| 0 <= i < l.env@.len() && (trim_spec((#[trigger] l.env@[i]).0@).len() == 0 || l.env@[i].0@.contains('=')))
            ==> !launch_spec_valid(l),
        !l.session_id@.contains('\0') && !l.executable@.contains('\0') && !l.cwd@.contains('\0')
            && trim_spec(l.session_id@).len() > 0 && trim_spec(l.executable@).len() > 0 && l.cwd@.len() > 0
            && (forall|i: int| 0 <= i < l.args@.len() ==> !(#[trigger] l.args@[i])@.contains('\0'))
            && (forall|i: int| 0 <= i < l.env@.len() ==> {
                let (k, v) = #[trigger] l.env@[i];
                trim_spec(k@).len() > 0 && !k@.contains('=') && !k@.contains('\0') && !v@.contains('\0')
            })
            ==> launch_spec_valid(l),
{
}

fn blank(s: &String) -> (r: bool)
    ensures
        r == (trim_spec(s@).len() == 0),
{
    let cs = chars_of(s.as_str());
    let (a, b) = trim_bounds(cs.as_slice());
    a == b
}

fn holds(s: &String, c: char) -> (r: bool)
    ensures
        r == s@.contains(c),
{
    let cs = chars_of(s.as_str());
    contains_char(cs.as_slice(), c)
}

/// Checks a launch before anything is written for it.
pub fn validate_launch_spec(launch: &ZellijLaunchSpec) -> (r: Result<(), String>)
    ensures
        launch_spec_valid(*launch) ==> r is Ok,
        !launch_spec_valid(*launch) ==> (r matches Err(e) && e@ == "Agent terminal launch specification is invalid"@),
{
    let mut valid = !blank(&launch.session_id) && !holds(&launch.session_id, '\0')
        && !blank(&launch.executable) && !holds(&launch.executable, '\0')
        && launch.cwd.as_str().unicode_len() > 0 && !holds(&launch.cwd, '\0');
    let mut i: usize = 0;
    while i < launch.args.len()
        invariant
            i <= launch.args@.len(),
            valid == (trim_spec(launch.session_id@).len() > 0 && !has_nul(launch.session_id@)
                && trim_spec(launch.executable@).len() > 0 && !has_nul(launch.executable@)
                && launch.cwd@.len() > 0 && !has_nul(launch.cwd@)
                && forall|j: int| 0 <= j < i ==> !has_nul((#[trigger] launch.args@[j])@)),
        decreases launch.args@.len() - i,
    {
        if holds(&launch.args[i], '\0') {
            valid = false;
        }
        i = i + 1;
    }
    let mut k: usize = 0;
    while k < launch.env.len()
        invariant
            k <= launch.env@.len(),
            valid == (trim_spec(launch.session_id@).len() > 0 && !has_nul(launch.session_id@)
                && trim_spec(launch.executable@).len() > 0 && !has_nul(launch.executable@)
                && launch.cwd@.len() > 0 && !has_nul(launch.cwd@)
                && (forall|j: int| 0 <= j < launch.args@.len() ==> !has_nul((#[trigger] launch.args@[j])@))
                && forall|j: int| 0 <= j < k ==> {
                    let (n, v) = #[trigger] launch.env@[j];
                    trim_spec(n@).len() > 0 && !n@.contains('=') && !has_nul(n@) && !has_nul(v@)
                }),
        decreases launch.env@.len() - k,
    {
        let (name, value) = &launch.env[k];
        if blank(name) || holds(name, '=') || holds(name, '\0') || holds(value, '\0') {
            valid = false;
        }
        k = k + 1;
    }
    if valid {
        Ok(())
    } else {
        Err("Agent terminal launch specification is invalid".to_owned())
    }
}

/// The frame prefix: clear scrollback, clear screen, home the cursor.
pub open spec fn frame_prefix() -> Seq<u8> {
    seq![0x1bu8, 0x5b, 0x33, 0x4a, 0x1b, 0x5b, 0x32, 0x4a, 0x1b, 0x5b, 0x48]
}

/// The lines with trailing empty lines dropped.
pub open spec fn drop_trailing_empty(lines: Seq<Seq<char>>) -> Seq<Seq<char>>
    decreases lines.len(),
{
    if lines.len() > 0 && lines.last().len() == 0 {
        drop_trailing_empty(lines.drop_last())
    } else {
        lines
    }
}

/// A pane update rendered as one complete frame: scrollback then viewport,
/// trailing blank lines dropped, joined by CRLF, as UTF-8.
pub open spec fn render_spec(scrollback: Seq<Seq<char>>, viewport: Seq<Seq<char>>) -> Seq<u8> {
    frame_prefix() + vstd::utf8::encode_utf8(crate::text::join_spec(drop_trailing_empty(scrollback + viewport), "\r\n"@))
}

/// Renders a pane update as a frame that replaces everything the terminal showed.
pub fn render_zellij_snapshot(scrollback: Option<Vec<String>>, viewport: Vec<String>) -> (r: Vec<u8>)
    ensures
        r@ == render_spec(
            match scrollback { Some(s) => crate::text::strings_view(s@), None => Seq::empty() },
            crate::text::strings_view(viewport@),
        ),
{
    let mut lines: Vec<String> = match scrollback {
        Some(s) => s,
        None => Vec::new(),
    };
    let ghost sb = crate::text::strings_view(lines@);
    let mut v = viewport;
    let ghost vp = crate::text::strings_view(v@);
    lines.append(&mut v);
    assert(crate::text::strings_view(lines@) =~= sb + vp);
    while lines.len() > 0 && lines[lines.len() - 1].as_str().unicode_len() == 0
        invariant
            drop_trailing_empty(crate::text::strings_view(lines@)) == drop_trailing_empty(sb + vp),
        decreases lines@.len(),
    {
        let ghost before = crate::text::strings_view(lines@);
        lines.pop();
        assert(crate::text::strings_view(lines@) =~= before.drop_last());
    }
    let mut text: Vec<char> = Vec::new();
    crate::text::push_joined(&mut text, lines.as_slice(), "\r\n");
    assert(crate::text::strings_view(lines@) == drop_trailing_empty(sb + vp));
    let joined = string_from_chars(text.as_slice());
    let mut frame: Vec<u8> = vec![0x1bu8, 0x5b, 0x33, 0x4a, 0x1b, 0x5b, 0x32, 0x4a, 0x1b, 0x5b, 0x48];
    let body = joined.as_str().as_bytes();
    let ghost start = frame@;
    let mut i: usize = 0;
    while i < body.len()
        invariant
            i <= body@.len(),
            frame@ == start + body@.take(i as int),
        decreases body@.len() - i,
    {
        frame.push(body[i]);
        assert(body@.take(i + 1) =~= body@.take(i as int).push(body@[i as int]));
        i = i + 1;
    }
    assert(body@.take(body@.len() as int) =~= body@);
    assert(frame@ =~= frame_prefix() + body@);
    frame
}

/// The text `String::from_utf8_lossy` makes of `bytes`.
pub uninterp spec fn utf8_lossy(bytes: Seq<u8>) -> Seq<char>;

/// Calls `String::from_utf8_lossy`; its text is named `utf8_lossy` of the
/// bytes, and bytes that are valid UTF-8 decode to the text they encode.
#[verifier::external_body]
fn lossy_text(bytes: &[u8]) -> (r: String)
    ensures
        r@ == utf8_lossy(bytes@),
        forall|text: Seq<char>| #[trigger] vstd::utf8::encode_utf8(text) == bytes@ ==> r@ == text,
{
    String::from_utf8_lossy(bytes).into_owned()
}

/// The last word, scanning from the end, that is a terminal pane identity.
pub open spec fn last_pane_word(ws: Seq<Seq<char>>) -> Option<Seq<char>>
    decreases ws.len(),
{
    if ws.len() == 0 {
        None
    } else {
        match pane_id_spec(ws.last()) {
            Some(id) => Some(id),
            None => last_pane_word(ws.drop_last()),
        }
    }
}

/// What finding the created pane in output text `text` gives: the last word
/// that is a terminal pane identity, else the error an operator sees.
pub open spec fn created_pane_outcome(text: Seq<char>, r: Result<ZellijPaneId, String>) -> bool {
    match last_pane_word(words_of(text)) {
        Some(id) => r matches Ok(p) && p.id_view() == id,
        None => r matches Err(e) && e@ == "Zellij did not return the created pane identity"@,
    }
}

/// Finds the created pane's identity in the text of `new-pane` output,
/// ignoring startup noise around it.
pub fn parse_created_pane_text(text: &str) -> (r: Result<ZellijPaneId, String>)
    ensures
        created_pane_outcome(text@, r),
{
    let cs = chars_of(text);
    let ws = words(cs.as_slice());
    let mut k: usize = ws.len();
    assert(char_seqs(ws@) =~= words_of(cs@));
    assert(char_seqs(ws@).take(ws@.len() as int) =~= char_seqs(ws@));
    while k > 0
        invariant
            k <= ws@.len(),
            char_seqs(ws@) == words_of(text@),
            last_pane_word(words_of(text@)) == last_pane_word(char_seqs(ws@).take(k as int)),
        decreases k,
    {
        let ghost t = char_seqs(ws@).take(k as int);
        assert(t.last() == ws@[k - 1]@);
        assert(t.drop_last() =~= char_seqs(ws@).take(k - 1));
        if let Ok(p) = ZellijPaneId::parse_chars(ws[k - 1].as_slice()) {
            return Ok(p);
        }
        k = k - 1;
    }
    Err("Zellij did not return the created pane identity".to_owned())
}

/// Finds the created pane's identity in `new-pane` output, decoded as
/// `String::from_utf8_lossy` decodes it; output that is valid UTF-8 is read
/// as the text it encodes.
pub fn parse_created_pane_id(bytes: &[u8]) -> (r: Result<ZellijPaneId, String>)
    ensures
        created_pane_outcome(utf8_lossy(bytes@), r),
        forall|text: Seq<char>| #[trigger] vstd::utf8::encode_utf8(text) == bytes@ ==> created_pane_outcome(text, r),
{
    let text = lossy_text(bytes);
    parse_created_pane_text(text.as_str())
}

/// Most characters of a Zellij error line shown to an operator.
pub const MAX_ERROR_CHARS: usize = 160;

/// Whether a word could leak a path or a secret.
pub open spec fn sensitive_word(w: Seq<char>) -> bool {
    w.contains('\\') || w.contains('/') || crate::text::contains_seq(w, "token"@) || crate::text::contains_seq(w, "nonce"@)
}

pub open spec fn redact_words(ws: Seq<Seq<char>>) -> Seq<Seq<char>> {
    ws.map_values(|w: Seq<char>| if sensitive_word(w) { "[redacted]"@ } else { w })
}

/// The first line that is not blank, or nothing.
pub open spec fn first_nonblank_line(lines: Seq<Seq<char>>) -> Seq<char>
    decreases lines.len(),
{
    if lines.len() == 0 {
        Seq::empty()
    } else if trim_spec(lines[0]).len() > 0 {
        lines[0]
    } else {
        first_nonblank_line(lines.drop_first())
    }
}

/// The first non-blank stderr line, capped and with path- or secret-like words redacted.
pub open spec fn redact_spec(lines: Seq<Seq<char>>) -> Seq<char> {
    let first = first_nonblank_line(lines);
    if first.len() == 0 {
        "terminal engine unavailable"@
    } else {
        let bounded = if first.len() > MAX_ERROR_CHARS { first.take(MAX_ERROR_CHARS as int) } else { first };
        crate::text::join_spec(redact_words(words_of(bounded)), " "@)
    }
}

/// Reduces Zellij's stderr (already split into lines) to something safe to show.
pub fn redact_zellij_error(lines: &[String]) -> (r: String)
    ensures
        r@ == redact_spec(crate::text::strings_view(lines@)),
{
    let ghost all = crate::text::strings_view(lines@);
    let mut i: usize = 0;
    assert(all.skip(0) =~= all);
    while i < lines.len()
        invariant
            i <= lines@.len(),
            all == crate::text::strings_view(lines@),
            first_nonblank_line(all) == first_nonblank_line(all.skip(i as int)),
        ensures
            i <= lines@.len(),
            first_nonblank_line(all) == first_nonblank_line(all.skip(i as int)),
            i < lines@.len() ==> trim_spec(all[i as int]).len() > 0,
        decreases lines@.len() - i,
    {
        if !blank(&lines[i]) {
            break;
        }
        assert(all.skip(i as int)[0] == all[i as int]);
        assert(all.skip(i as int).drop_first() =~= all.skip(i + 1));
        i = i + 1;
    }
    if i == lines.len() {
        assert(all.skip(i as int).len() == 0);
        return "terminal engine unavailable".to_owned();
    }
    assert(all.skip(i as int)[0] == lines@[i as int]@);
    let first = chars_of(lines[i].as_str());
    if first.len() == 0 {
        return "terminal engine unavailable".to_owned();
    }
    let mut bounded = first;
    if bounded.len() > MAX_ERROR_CHARS {
        bounded.truncate(MAX_ERROR_CHARS);
    }
    let ws = words(bounded.as_slice());
    let mut parts: Vec<Vec<char>> = Vec::new();
    let token = chars_of("token");
    let nonce = chars_of("nonce");
    let mut k: usize = 0;
    while k < ws.len()
        invariant
            k <= ws@.len(),
            token@ == "token"@,
            nonce@ == "nonce"@,
            parts@.len() == k,
            char_seqs(parts@) == redact_words(char_seqs(ws@).take(k as int)),
        decreases ws@.len() - k,
    {
        let w = ws[k].as_slice();
        let hide = contains_char(w, '\\') || contains_char(w, '/')
            || crate::text::contains_exec(w, token.as_slice())
            || crate::text::contains_exec(w, nonce.as_slice());
        assert(ws@[k as int]@ == char_seqs(ws@)[k as int]);
        assert(hide == sensitive_word(ws@[k as int]@));
        let ghost before = parts@;
        if hide {
            let mut r: Vec<char> = Vec::new();
            push_str_chars(&mut r, "[redacted]");
            parts.push(r);
        } else {
            let mut r: Vec<char> = Vec::new();
            push_slice(&mut r, w);
            parts.push(r);
        }
        assert(char_seqs(ws@).take(k + 1) =~= char_seqs(ws@).take(k as int).push(ws@[k as int]@));
        assert(char_seqs(parts@) =~= char_seqs(before).push(parts@[k as int]@));
        assert(char_seqs(parts@) =~= redact_words(char_seqs(ws@).take(k + 1)));
        k = k + 1;
    }
    assert(char_seqs(ws@).take(ws@.len() as int) =~= char_seqs(ws@));
    assert(char_seqs(ws@) =~= words_of(bounded@));
    let mut out: Vec<char> = Vec::new();
    push_words_joined(&mut out, parts.as_slice());
    into_string(out)
}

/// A PowerShell single-quoted literal: quotes doubled inside, one quote either side.
pub open spec fn powershell_quote_spec(value: Seq<char>) -> Seq<char>
    decreases value.len(),
{
    if value.len() == 0 {
        seq!['\'', '\'']
    } else {
        let prev = powershell_quote_spec(value.drop_last());
        let body = prev.drop_last();
        if value.last() == '\'' { body.push('\'').push('\'').push('\'') } else { body.push(value.last()).push('\'') }
    }
}

/// Quotes a value for a PowerShell command line.
pub fn powershell_single_quoted(value: &str) -> (r: String)
    ensures
        r@ == powershell_quote_spec(value@),
{
    let cs = chars_of(value);
    let mut out: Vec<char> = Vec::new();
    out.push('\'');
    let mut i: usize = 0;
    while i < cs.len()
        invariant
            i <= cs@.len(),
            out@.push('\'') == powershell_quote_spec(cs@.take(i as int)),
        decreases cs@.len() - i,
    {
        let c = cs[i];
        let ghost prev = out@;
        if c == '\'' {
            out.push('\'');
            out.push('\'');
        } else {
            out.push(c);
        }
        proof {
            let t = cs@.take(i + 1);
            assert(t.drop_last() =~= cs@.take(i as int));
            assert(prev.push('\'').drop_last() =~= prev);
        }
        i = i + 1;
    }
    assert(cs@.take(cs@.len() as int) =~= cs@);
    out.push('\'');
    into_string(out)
}

/// `wardian-` and the first twelve hex digits of the identity's SHA-256.
pub open spec fn session_name_spec(identity: Seq<u8>) -> Seq<char> {
    "wardian-"@ + lower_hex(sha256_digest(identity)).take(12)
}

/// The Zellij session name for a Wardian home, from the home's identity bytes.
pub fn session_name_for_identity(identity: &[u8]) -> (r: String)
    ensures
        r@ == session_name_spec(identity@),
{
    let digest = sha256(identity);
    let prefix = hex_prefix(digest.as_slice(), 12);
    let mut out: Vec<char> = Vec::new();
    push_str_chars(&mut out, "wardian-");
    push_str_chars(&mut out, prefix.as_str());
    into_string(out)
}

/// A path with every backslash written as a slash.
pub open spec fn forward_slashes(path: Seq<char>) -> Seq<char> {
    path.map_values(|c: char| if c == '\\' { '/' } else { c })
}

/// The identity of a Windows home: its path with backslashes as slashes,
/// lowercased, as UTF-8. Spellings of one home that differ only in
/// separators or case share it.
pub open spec fn windows_home_identity_spec(home: Seq<char>) -> Seq<u8> {
    vstd::utf8::encode_utf8(unicode_lowercase(forward_slashes(home)))
}

/// The identity bytes of a Windows home.
pub fn windows_home_identity(home: &str) -> (r: Vec<u8>)
    ensures
        r@ == windows_home_identity_spec(home@),
{
    let cs = chars_of(home);
    let mut out: Vec<char> = Vec::new();
    let mut i: usize = 0;
    while i < cs.len()
        invariant
            i <= cs@.len(),
            cs@ == home@,
            out@ == forward_slashes(cs@).take(i as int),
        decreases cs@.len() - i,
    {
        let c = cs[i];
        out.push(if c == '\\' { '/' } else { c });
        assert(forward_slashes(cs@).take(i + 1) =~= forward_slashes(cs@).take(i as int).push(forward_slashes(cs@)[i as int]));
        i = i + 1;
    }
    assert(forward_slashes(cs@).take(cs@.len() as int) =~= forward_slashes(cs@));
    let slashed = into_string(out);
    let lowered = lowercase(slashed.as_str());
    let bytes = lowered.as_str().as_bytes();
    let mut r: Vec<u8> = Vec::new();
    let mut k: usize = 0;
    while k < bytes.len()
        invariant
            k <= bytes@.len(),
            r@ == bytes@.take(k as int),
        decreases bytes@.len() - k,
    {
        r.push(bytes[k]);
        assert(bytes@.take(k + 1) =~= bytes@.take(k as int).push(bytes@[k as int]));
        k = k + 1;
    }
    assert(bytes@.take(bytes@.len() as int) =~= bytes@);
    r
}

/// Where the bundled Zellij runs from, and the session it hosts.
#[derive(Debug, Clone)]
pub struct ZellijTerminalConfig {
    pub executable: String,
    pub wardian_cli: String,
    pub runtime_root: String,
    pub wardian_home: String,
    pub session_name: String,
}

pub open spec fn missing_zellij_message() -> Seq<char> {
    "Bundled Zellij "@ + ZELLIJ_VERSION@ + " is unavailable"@
}

pub open spec fn missing_host_message() -> Seq<char> {
    "Bundled Wardian terminal host is unavailable"@
}

/// A relative part joined to a path as `Path::join` joins it: the part alone
/// below an empty base, else one separator between them unless the base
/// already ends in one (on Windows `\` and `/` both count).
pub open spec fn path_join(base: Seq<char>, part: Seq<char>, windows: bool) -> Seq<char> {
    if base.len() == 0 || base.last() == '/' || (windows && base.last() == '\\') {
        base + part
    } else {
        base + (if windows { seq!['\\'] } else { seq!['/'] }) + part
    }
}

fn join_path(base: &str, part: &str, windows: bool) -> (r: String)
    ensures
        r@ == path_join(base@, part@, windows),
{
    let cs = chars_of(base);
    let mut out: Vec<char> = Vec::new();
    push_str_chars(&mut out, base);
    let ends_with_separator = cs.len() == 0 || cs[cs.len() - 1] == '/' || (windows && cs[cs.len() - 1] == '\\');
    if !ends_with_separator {
        out.push(if windows { '\\' } else { '/' });
    }
    push_str_chars(&mut out, part);
    proof {
        if ends_with_separator {
            assert(out@ =~= base@ + part@);
        } else {
            assert(out@ =~= base@ + (if windows { seq!['\\'] } else { seq!['/'] }) + part@);
        }
    }
    into_string(out)
}

/// Which of the two places a bundled binary may sit hold a file: directly
/// under `bin`, or under `resources/bin`.
#[derive(Debug, Clone, Copy, PartialEq, Eq)]
pub struct BundleProbe {
    pub zellij_direct: bool,
    pub zellij_nested: bool,
    pub cli_direct: bool,
    pub cli_nested: bool,
}

/// The name of a bundled binary on the host.
pub open spec fn binary_name(stem: Seq<char>, windows: bool) -> Seq<char> {
    if windows { stem + ".exe"@ } else { stem }
}

/// Where a bundled binary is taken from: `bin/<name>` under the resources
/// when that is a file, else `resources/bin/<name>`.
pub open spec fn bundled_path(resources: Seq<char>, name: Seq<char>, windows: bool, direct_is_file: bool) -> Seq<char> {
    if direct_is_file {
        path_join(path_join(resources, "bin"@, windows), name, windows)
    } else {
        path_join(path_join(path_join(resources, "resources"@, windows), "bin"@, windows), name, windows)
    }
}

/// The bytes that identify a home: on Windows its path with slashes,
/// lowercased; elsewhere the path's own bytes.
pub open spec fn home_identity_spec(home: Seq<char>, windows: bool) -> Seq<u8> {
    if windows { windows_home_identity_spec(home) } else { vstd::utf8::encode_utf8(home) }
}

fn bundled(resources: &str, name: &str, windows: bool, direct_is_file: bool) -> (r: String)
    ensures
        r@ == bundled_path(resources@, name@, windows, direct_is_file),
{
    if direct_is_file {
        let bin = join_path(resources, "bin", windows);
        join_path(bin.as_str(), name, windows)
    } else {
        let nested = join_path(resources, "resources", windows);
        let bin = join_path(nested.as_str(), "bin", windows);
        join_path(bin.as_str(), name, windows)
    }
}

impl ZellijTerminalConfig {
    /// The configuration for the binaries bundled under `resources`, given
    /// which of their places hold files: the Zellij binary must exist, then
    /// the terminal host; the runtime lives under the home's `runtime/zellij`
    /// and the session is named for the home.
    pub fn from_resources(resources: &str, wardian_home: &str, windows: bool, probe: BundleProbe) -> (r: Result<Self, String>)
        ensures
            !(probe.zellij_direct || probe.zellij_nested) ==> (r is Err && r->Err_0@ == missing_zellij_message()),
            (probe.zellij_direct || probe.zellij_nested) && !(probe.cli_direct || probe.cli_nested)
                ==> (r is Err && r->Err_0@ == missing_host_message()),
            (probe.zellij_direct || probe.zellij_nested) && (probe.cli_direct || probe.cli_nested) ==> (r is Ok && {
                let c = r->Ok_0;
                &&& c.executable@ == bundled_path(resources@, binary_name("zellij"@, windows), windows, probe.zellij_direct)
                &&& c.wardian_cli@ == bundled_path(resources@, binary_name("wardian-cli"@, windows), windows, probe.cli_direct)
                &&& c.runtime_root@ == path_join(path_join(wardian_home@, "runtime"@, windows), "zellij"@, windows)
                &&& c.wardian_home@ == wardian_home@
                &&& c.session_name@ == session_name_spec(home_identity_spec(wardian_home@, windows))
            }),
    {
        if !(probe.zellij_direct || probe.zellij_nested) {
            let mut out: Vec<char> = Vec::new();
            push_str_chars(&mut out, "Bundled Zellij ");
            push_str_chars(&mut out, ZELLIJ_VERSION);
            push_str_chars(&mut out, " is unavailable");
            return Err(into_string(out));
        }
        if !(probe.cli_direct || probe.cli_nested) {
            return Err(String::from_str("Bundled Wardian terminal host is unavailable"));
        }
        let zellij_name = if windows { String::from_str("zellij.exe") } else { String::from_str("zellij") };
        let cli_name = if windows { String::from_str("wardian-cli.exe") } else { String::from_str("wardian-cli") };
        proof {
            reveal_strlit("zellij.exe");
            reveal_strlit("zellij");
            reveal_strlit(".exe");
            reveal_strlit("wardian-cli.exe");
            reveal_strlit("wardian-cli");
            assert(zellij_name@ == binary_name("zellij"@, windows));
            assert(cli_name@ == binary_name("wardian-cli"@, windows));
        }
        let executable = bundled(resources, zellij_name.as_str(), windows, probe.zellij_direct);
        let wardian_cli = bundled(resources, cli_name.as_str(), windows, probe.cli_direct);
        let runtime = join_path(wardian_home, "runtime", windows);
        let runtime_root = join_path(runtime.as_str(), "zellij", windows);
        let session_name = if windows {
            let identity = windows_home_identity(wardian_home);
            session_name_for_identity(identity.as_slice())
        } else {
            session_name_for_identity(wardian_home.as_bytes())
        };
        Ok(ZellijTerminalConfig {
            executable,
            wardian_cli,
            runtime_root,
            wardian_home: String::from_str(wardian_home),
            session_name,
        })
    }
}


/// What the one-use terminal host reads to start an agent's process: the
/// whole launch, environment included, which never goes on a command line.
#[derive(Debug, Clone, PartialEq, Eq)]
pub struct TerminalLaunchManifest {
    pub nonce: String,
    pub session_id: String,
    pub executable: String,
    pub args: Vec<String>,
    pub cwd: String,
    pub env: Vec<(String, String)>,
}

/// A prepared pane launch: where its manifest is written, the manifest,
/// and the command the new pane runs.
#[derive(Debug, Clone, PartialEq, Eq)]
pub struct PaneLaunch {
    pub manifest_path: String,
    pub manifest: TerminalLaunchManifest,
    pub pane_command: Vec<String>,
}

pub open spec fn env_view(env: Seq<(String, String)>) -> Seq<(Seq<char>, Seq<char>)> {
    env.map_values(|kv: (String, String)| (kv.0@, kv.1@))
}

/// The directory the launch manifests are written to.
pub open spec fn launches_dir_spec(runtime_root: Seq<char>, windows: bool) -> Seq<char> {
    path_join(runtime_root, "launches"@, windows)
}

/// The manifest of the launch with this nonce.
pub open spec fn manifest_path_spec(runtime_root: Seq<char>, nonce: Seq<char>, windows: bool) -> Seq<char> {
    path_join(launches_dir_spec(runtime_root, windows), nonce + ".json"@, windows)
}

/// The command a new pane runs: the terminal host on a manifest, with the
/// nonce that manifest carries. Nothing of the launch but these is on it.
pub open spec fn host_command_spec(wardian_cli: Seq<char>, manifest_path: Seq<char>, nonce: Seq<char>) -> Seq<Seq<char>> {
    seq![wardian_cli, "terminal-host"@, "--manifest"@, manifest_path, "--nonce"@, nonce]
}

fn copy_strings(v: &Vec<String>) -> (r: Vec<String>)
    ensures
        strings_view(r@) == strings_view(v@),
{
    let ghost full = strings_view(v@);
    let mut out: Vec<String> = Vec::new();
    let mut i: usize = 0;
    while i < v.len()
        invariant
            i <= v@.len(),
            full == strings_view(v@),
            strings_view(out@) == full.take(i as int),
        decreases v@.len() - i,
    {
        let ghost b = out@;
        out.push(v[i].clone());
        assert(strings_view(out@) =~= strings_view(b).push(full[i as int]));
        assert(full.take(i + 1) =~= full.take(i as int).push(full[i as int]));
        i = i + 1;
    }
    assert(full.take(v@.len() as int) =~= full);
    out
}

fn copy_env(env: &Vec<(String, String)>) -> (r: Vec<(String, String)>)
    ensures
        env_view(r@) == env_view(env@),
{
    let ghost full = env_view(env@);
    let mut out: Vec<(String, String)> = Vec::new();
    let mut i: usize = 0;
    while i < env.len()
        invariant
            i <= env@.len(),
            full == env_view(env@),
            env_view(out@) == full.take(i as int),
        decreases env@.len() - i,
    {
        let ghost b = out@;
        let name = env[i].0.clone();
        let value = env[i].1.clone();
        out.push((name, value));
        assert(env_view(out@) =~= env_view(b).push(full[i as int]));
        assert(full.take(i + 1) =~= full.take(i as int).push(full[i as int]));
        i = i + 1;
    }
    assert(full.take(env@.len() as int) =~= full);
    out
}

impl ZellijTerminalConfig {
    /// Where the launch manifests are written: `launches` under the runtime root.
    pub fn launches_dir(&self, windows: bool) -> (r: String)
        ensures
            r@ == launches_dir_spec(self.runtime_root@, windows),
    {
        join_path(self.runtime_root.as_str(), "launches", windows)
    }
}

/// Prepares an agent's pane launch under this nonce: the manifest, written
/// to `<nonce>.json` in the launches directory, holds the whole launch; the
/// pane runs the terminal host on that manifest, so neither the environment
/// nor the arguments appear on its command line.
pub fn prepare_pane_launch(config: &ZellijTerminalConfig, launch: &ZellijLaunchSpec, nonce: &str, windows: bool) -> (r: PaneLaunch)
    ensures
        r.manifest_path@ == manifest_path_spec(config.runtime_root@, nonce@, windows),
        r.manifest.nonce@ == nonce@,
        r.manifest.session_id@ == launch.session_id@,
        r.manifest.executable@ == launch.executable@,
        strings_view(r.manifest.args@) == strings_view(launch.args@),
        r.manifest.cwd@ == launch.cwd@,
        env_view(r.manifest.env@) == env_view(launch.env@),
        strings_view(r.pane_command@) == host_command_spec(config.wardian_cli@, r.manifest_path@, nonce@),
{
    let dir = config.launches_dir(windows);
    let mut file: Vec<char> = Vec::new();
    push_str_chars(&mut file, nonce);
    push_str_chars(&mut file, ".json");
    let file = into_string(file);
    let manifest_path = join_path(dir.as_str(), file.as_str(), windows);
    let mut pane_command: Vec<String> = Vec::new();
    pane_command.push(String::from_str(config.wardian_cli.as_str()));
    pane_command.push(String::from_str("terminal-host"));
    pane_command.push(String::from_str("--manifest"));
    pane_command.push(String::from_str(manifest_path.as_str()));
    pane_command.push(String::from_str("--nonce"));
    pane_command.push(String::from_str(nonce));
    assert(strings_view(pane_command@) =~= host_command_spec(config.wardian_cli@, manifest_path@, nonce@));
    let manifest = TerminalLaunchManifest {
        nonce: String::from_str(nonce),
        session_id: String::from_str(launch.session_id.as_str()),
        executable: String::from_str(launch.executable.as_str()),
        args: copy_strings(&launch.args),
        cwd: String::from_str(launch.cwd.as_str()),
        env: copy_env(&launch.env),
    };
    PaneLaunch { manifest_path, manifest, pane_command }
}

} // verus!
