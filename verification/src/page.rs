//! What a browser session knows of its page between protocol events: where it
//! is, whether it has loaded, what its console said, and which snapshot refs
//! are still good; and the conditions `wait` can block on.
use vstd::prelude::*;

use crate::browser::{console_level_spec, normalize_console_level, BrowserError};
use crate::sessions::{ConsoleEntry, ConsoleLog, CONSOLE_BUFFER};
use crate::snapshot::{parse_ref_spec, validate_outcome, RefError, RefIdentity, SnapshotLedger};
use crate::text::{chars_of, into_string, join_spec, push_str_chars, str_eq};

verus! {

/// How far a page has loaded.
#[derive(Debug, Clone, Copy, PartialEq, Eq, Structural)]
pub enum LoadState {
    Loading,
    Idle,
    Complete,
    Failed,
}

pub open spec fn load_state_name(s: LoadState) -> Seq<char> {
    match s {
        LoadState::Loading => "loading"@,
        LoadState::Idle => "idle"@,
        LoadState::Complete => "complete"@,
        LoadState::Failed => "failed"@,
    }
}

impl LoadState {
    pub fn as_str(&self) -> (r: &'static str)
        ensures
            r@ == load_state_name(*self),
    {
        match self {
            LoadState::Loading => "loading",
            LoadState::Idle => "idle",
            LoadState::Complete => "complete",
            LoadState::Failed => "failed",
        }
    }
}

// ---------------------------------------------------------------------------
// Wait conditions

/// A condition `wait` can block on.
#[derive(Debug, Clone, PartialEq, Eq)]
pub enum WaitCondition {
    LoadState(LoadState),
    Selector(String),
    Text(String),
    UrlContains(String),
    Function(String),
}

/// How `serde_json` writes one character inside a string literal: quote and
/// backslash escaped, backspace, tab, line feed, form feed and carriage
/// return by their letters, the other controls below 0x20 as `\u00` and two
/// lowercase hex digits, everything else as it is.
pub open spec fn json_escape_char(c: char) -> Seq<char> {
    let u = c as u32;
    if c == '"' {
        seq!['\\', '"']
    } else if c == '\\' {
        seq!['\\', '\\']
    } else if u == 0x8 {
        seq!['\\', 'b']
    } else if u == 0x9 {
        seq!['\\', 't']
    } else if u == 0xA {
        seq!['\\', 'n']
    } else if u == 0xC {
        seq!['\\', 'f']
    } else if u == 0xD {
        seq!['\\', 'r']
    } else if u < 0x20 {
        seq!['\\', 'u', '0', '0', lower_hex_digit(u / 16), lower_hex_digit(u % 16)]
    } else {
        seq![c]
    }
}

pub open spec fn lower_hex_digit(d: u32) -> char {
    if d < 10 {
        ((d + 48) as u32) as char
    } else {
        ((d + 87) as u32) as char
    }
}

pub open spec fn json_escaped(text: Seq<char>) -> Seq<char>
    decreases text.len(),
{
    if text.len() == 0 {
        Seq::empty()
    } else {
        json_escaped(text.drop_last()) + json_escape_char(text.last())
    }
}

/// The JSON string literal `serde_json` writes for a text: the escaped
/// characters between double quotes.
pub open spec fn json_string_literal(text: Seq<char>) -> Seq<char> {
    seq!['"'] + json_escaped(text) + seq!['"']
}

/// Writes the text as a `serde_json::Value::String` with `to_string()`,
/// which gives the JSON string literal as `json_string_literal` states it.
#[verifier::external_body]
pub(crate) fn json_quoted(text: &str) -> (r: String)
    ensures
        r@ == json_string_literal(text@),
{
    serde_json::Value::from(text).to_string()
}

/// The quoted form `format!("{:?}")` writes for a text.
pub uninterp spec fn debug_string_literal(text: Seq<char>) -> Seq<char>;

/// Writes the text with `format!("{:?}")`, the escaped and quoted form named
/// `debug_string_literal`.
#[verifier::external_body]
pub(crate) fn debug_quoted(text: &str) -> (r: String)
    ensures
        r@ == debug_string_literal(text@),
{
    format!("{:?}", text)
}

/// How a condition names itself in a timeout message.
pub open spec fn describe_spec(c: WaitCondition) -> Seq<char> {
    match c {
        WaitCondition::LoadState(s) => "load state "@ + load_state_name(s),
        WaitCondition::Selector(x) => "selector "@ + debug_string_literal(x@),
        WaitCondition::Text(x) => "text "@ + debug_string_literal(x@),
        WaitCondition::UrlContains(x) => "url containing "@ + debug_string_literal(x@),
        WaitCondition::Function(x) => "expression "@ + debug_string_literal(x@),
    }
}

/// The JavaScript predicate a condition polls; the failed load state has none.
pub open spec fn predicate_spec(c: WaitCondition) -> Option<Seq<char>> {
    match c {
        WaitCondition::LoadState(LoadState::Complete) => Some("document.readyState === 'complete'"@),
        WaitCondition::LoadState(LoadState::Loading) => Some("document.readyState === 'loading'"@),
        WaitCondition::LoadState(LoadState::Idle) => Some("document.readyState !== 'loading'"@),
        WaitCondition::LoadState(LoadState::Failed) => None,
        WaitCondition::Selector(x) => Some("document.querySelector("@ + json_string_literal(x@) + ") !== null"@),
        WaitCondition::Text(x) => Some(
            "(document.body ? document.body.innerText : '').includes("@ + json_string_literal(x@) + ")"@,
        ),
        WaitCondition::UrlContains(x) => Some("window.location.href.includes("@ + json_string_literal(x@) + ")"@),
        WaitCondition::Function(x) => Some("!!("@ + x@ + ")"@),
    }
}

fn owned(a: &str) -> (r: String)
    ensures
        r@ == a@,
{
    a.to_owned()
}

fn concat2(a: &str, b: &str) -> (r: String)
    ensures
        r@ == a@ + b@,
{
    let mut out: Vec<char> = Vec::new();
    push_str_chars(&mut out, a);
    push_str_chars(&mut out, b);
    into_string(out)
}

fn concat3(a: &str, b: &str, c: &str) -> (r: String)
    ensures
        r@ == a@ + b@ + c@,
{
    let mut out: Vec<char> = Vec::new();
    push_str_chars(&mut out, a);
    push_str_chars(&mut out, b);
    push_str_chars(&mut out, c);
    into_string(out)
}

impl WaitCondition {
    /// How the condition names itself in a timeout message.
    pub fn describe(&self) -> (r: String)
        ensures
            r@ == describe_spec(*self),
    {
        match self {
            WaitCondition::LoadState(state) => concat2("load state ", state.as_str()),
            WaitCondition::Selector(x) => concat2("selector ", debug_quoted(x.as_str()).as_str()),
            WaitCondition::Text(x) => concat2("text ", debug_quoted(x.as_str()).as_str()),
            WaitCondition::UrlContains(x) => concat2("url containing ", debug_quoted(x.as_str()).as_str()),
            WaitCondition::Function(x) => concat2("expression ", debug_quoted(x.as_str()).as_str()),
        }
    }

    /// The JavaScript predicate this condition polls, when it needs one.
    pub fn predicate(&self) -> (r: Option<String>)
        ensures
            match predicate_spec(*self) {
                Some(p) => r is Some && r->0@ == p,
                None => r is None,
            },
    {
        match self {
            WaitCondition::LoadState(LoadState::Complete) => Some(owned("document.readyState === 'complete'")),
            WaitCondition::LoadState(LoadState::Loading) => Some(owned("document.readyState === 'loading'")),
            WaitCondition::LoadState(LoadState::Idle) => Some(owned("document.readyState !== 'loading'")),
            WaitCondition::LoadState(LoadState::Failed) => None,
            WaitCondition::Selector(x) => Some(
                concat3("document.querySelector(", json_quoted(x.as_str()).as_str(), ") !== null"),
            ),
            WaitCondition::Text(x) => Some(
                concat3("(document.body ? document.body.innerText : '').includes(", json_quoted(x.as_str()).as_str(), ")"),
            ),
            WaitCondition::UrlContains(x) => Some(
                concat3("window.location.href.includes(", json_quoted(x.as_str()).as_str(), ")"),
            ),
            WaitCondition::Function(x) => Some(concat3("!!(", x.as_str(), ")")),
        }
    }
}

/// What `wait` polls for a condition, or why it cannot wait on it: the failed
/// load state is reported, never awaited.
pub fn wait_predicate(condition: &WaitCondition) -> (r: Result<String, BrowserError>)
    ensures
        *condition == WaitCondition::LoadState(LoadState::Failed) ==> (r is Err && (r->Err_0 matches BrowserError::Invalid { detail }
            && detail@ == "cannot wait for the failed load state; it is reported, not awaited"@)),
        *condition != WaitCondition::LoadState(LoadState::Failed) ==> r is Ok && predicate_spec(*condition) == Some(r->Ok_0@),
{
    if let WaitCondition::LoadState(LoadState::Failed) = condition {
        return Err(BrowserError::Invalid {
            detail: owned("cannot wait for the failed load state; it is reported, not awaited"),
        });
    }
    match condition.predicate() {
        Some(p) => Ok(p),
        None => Err(BrowserError::Invalid { detail: concat2(condition.describe().as_str(), " cannot be waited on") }),
    }
}

/// The failure of a `wait` whose deadline passed.
pub fn wait_timeout(condition: &WaitCondition, timeout_ms: u64) -> (r: BrowserError)
    ensures
        r matches BrowserError::WaitTimeout { condition: c, timeout_ms: t } && c@ == describe_spec(*condition) && t == timeout_ms,
{
    BrowserError::WaitTimeout { condition: condition.describe(), timeout_ms }
}

// ---------------------------------------------------------------------------
// Console events

/// One argument of a console API call: its `value` when that is a string,
/// else its `value` written as JSON when it has one, and its `description`
/// when that is a string.
#[derive(Debug, Clone, PartialEq, Eq)]
pub struct ConsoleArg {
    pub value_text: Option<String>,
    pub value_json: Option<String>,
    pub description: Option<String>,
}

/// The two console event shapes the protocol sends.
#[derive(Debug, Clone, PartialEq, Eq)]
pub enum ConsoleEvent {
    /// `Log.entryAdded`: the entry's `level` and `text`, when strings.
    LogEntry { level: Option<String>, text: Option<String> },
    /// `Runtime.consoleAPICalled`: its `type` when a string, and its `args`
    /// when an array.
    ApiCall { call_type: Option<String>, args: Option<Vec<ConsoleArg>> },
}

pub open spec fn opt_text(o: Option<String>, default: Seq<char>) -> Seq<char> {
    match o {
        Some(s) => s@,
        None => default,
    }
}

/// The text an argument contributes.
pub open spec fn arg_text_spec(a: ConsoleArg) -> Seq<char> {
    match a.value_text {
        Some(v) => v@,
        None => match a.value_json {
            Some(v) => v@,
            None => opt_text(a.description, Seq::empty()),
        },
    }
}

pub open spec fn console_entry_spec(e: ConsoleEvent) -> (Seq<char>, Seq<char>) {
    match e {
        ConsoleEvent::LogEntry { level, text } => (console_level_spec(opt_text(level, "info"@)), opt_text(text, Seq::empty())),
        ConsoleEvent::ApiCall { call_type, args } => (
            console_level_spec(opt_text(call_type, "log"@)),
            match args {
                Some(a) => join_spec(a@.map_values(|x: ConsoleArg| arg_text_spec(x)), " "@),
                None => Seq::empty(),
            },
        ),
    }
}

fn arg_text(a: &ConsoleArg) -> (r: Vec<char>)
    ensures
        r@ == arg_text_spec(*a),
{
    match &a.value_text {
        Some(v) => chars_of(v.as_str()),
        None => match &a.value_json {
            Some(v) => chars_of(v.as_str()),
            None => match &a.description {
                Some(d) => chars_of(d.as_str()),
                None => Vec::new(),
            },
        },
    }
}

/// Flattens either console event shape into one level and text: the level in
/// its three buckets, an API call's arguments joined by spaces.
pub fn console_entry_from(event: &ConsoleEvent) -> (r: (String, String))
    ensures
        (r.0@, r.1@) == console_entry_spec(*event),
{
    match event {
        ConsoleEvent::LogEntry { level, text } => {
            let l = match level {
                Some(l) => normalize_console_level(l.as_str()),
                None => normalize_console_level("info"),
            };
            let t = match text {
                Some(t) => owned(t.as_str()),
                None => String::new(),
            };
            (l, t)
        },
        ConsoleEvent::ApiCall { call_type, args } => {
            let l = match call_type {
                Some(c) => normalize_console_level(c.as_str()),
                None => normalize_console_level("log"),
            };
            let t = match args {
                Some(a) => {
                    let ghost texts = a@.map_values(|x: ConsoleArg| arg_text_spec(x));
                    let mut out: Vec<char> = Vec::new();
                    let mut i: usize = 0;
                    while i < a.len()
                        invariant
                            i <= a@.len(),
                            texts == a@.map_values(|x: ConsoleArg| arg_text_spec(x)),
                            out@ == join_spec(texts.take(i as int), " "@),
                        decreases a@.len() - i,
                    {
                        let piece = arg_text(&a[i]);
                        let ghost before = out@;
                        if i > 0 {
                            out.push(' ');
                        }
                        let mut k: usize = 0;
                        while k < piece.len()
                            invariant
                                k <= piece@.len(),
                                out@ == (if i > 0 { before.push(' ') } else { before }) + piece@.take(k as int),
                            decreases piece@.len() - k,
                        {
                            out.push(piece[k]);
                            assert(piece@.take(k + 1) =~= piece@.take(k as int).push(piece@[k as int]));
                            k = k + 1;
                        }
                        assert(piece@.take(piece@.len() as int) =~= piece@);
                        assert(texts.take(i + 1).drop_last() =~= texts.take(i as int));
                        assert(texts.take(i + 1).last() == piece@);
                        proof {
                            if i > 0 {
                                reveal_strlit(" ");
                                assert(out@ =~= before + " "@ + piece@);
                            } else {
                                assert(texts.take(i as int) =~= Seq::<Seq<char>>::empty());
                                assert(out@ =~= piece@);
                            }
                        }
                        i = i + 1;
                    }
                    assert(texts.take(a@.len() as int) =~= texts);
                    into_string(out)
                },
                None => String::new(),
            };
            (l, t)
        },
    }
}

// ---------------------------------------------------------------------------
// The page between protocol events

/// A protocol event, as far as the page state reads it.
#[derive(Debug, Clone, PartialEq, Eq)]
pub enum PageEvent {
    /// `Page.navigatedWithinDocument`, with its `url` (empty when absent).
    NavigatedWithinDocument { url: String },
    /// `Page.frameNavigated`: whether the frame has no parent, and its `url`
    /// (empty when absent).
    FrameNavigated { is_main_frame: bool, url: String },
    /// `Page.loadEventFired` or `Page.domContentEventFired`.
    LoadFired,
    /// A console message, already flattened.
    Console(ConsoleEntry),
    /// Anything else.
    Other,
}

/// A `frame` object of a protocol event: whether it has a `parentId` (an
/// iframe has one), and its `url` when that is a string.
#[derive(Debug, Clone, PartialEq, Eq)]
pub struct FrameRef {
    pub has_parent: bool,
    pub url: Option<String>,
}

/// What the page reads of a protocol event's `params`, each where present
/// with the expected type: `url`; `frame`; `entry.level` and `entry.text`;
/// `type`; and `args`.
#[derive(Debug, Clone, PartialEq, Eq)]
pub struct ProtocolEventFields {
    pub url: Option<String>,
    pub frame: Option<FrameRef>,
    pub entry_level: Option<String>,
    pub entry_text: Option<String>,
    pub call_type: Option<String>,
    pub args: Option<Vec<ConsoleArg>>,
}

/// The page event a protocol event with this `method` is: a document-local
/// navigation to `url`; a frame commit, main only for a `frame` without a
/// `parentId`, to the frame's `url`; a load; a console entry of either
/// shape; or nothing the page reads. Absent URLs read as empty.
pub open spec fn protocol_event_spec(method: Seq<char>, f: ProtocolEventFields, r: PageEvent) -> bool {
    if method == "Page.navigatedWithinDocument"@ {
        r matches PageEvent::NavigatedWithinDocument { url } && url@ == opt_text(f.url, Seq::empty())
    } else if method == "Page.frameNavigated"@ {
        r matches PageEvent::FrameNavigated { is_main_frame, url }
            && is_main_frame == (f.frame matches Some(fr) && !fr.has_parent)
            && url@ == (match f.frame {
                Some(fr) => opt_text(fr.url, Seq::empty()),
                None => Seq::empty(),
            })
    } else if method == "Page.loadEventFired"@ || method == "Page.domContentEventFired"@ {
        r == PageEvent::LoadFired
    } else if method == "Log.entryAdded"@ {
        r matches PageEvent::Console(e)
            && (e.level@, e.text@) == console_entry_spec(ConsoleEvent::LogEntry { level: f.entry_level, text: f.entry_text })
    } else if method == "Runtime.consoleAPICalled"@ {
        r matches PageEvent::Console(e)
            && (e.level@, e.text@) == console_entry_spec(ConsoleEvent::ApiCall { call_type: f.call_type, args: f.args })
    } else {
        r == PageEvent::Other
    }
}

fn text_or_empty(o: Option<String>) -> (r: String)
    ensures
        r@ == opt_text(o, Seq::empty()),
{
    match o {
        Some(s) => s,
        None => String::new(),
    }
}

impl PageEvent {
    /// Reads a protocol event as the page event it is.
    pub fn from_protocol(method: &str, fields: ProtocolEventFields) -> (r: PageEvent)
        ensures
            protocol_event_spec(method@, fields, r),
    {
        if str_eq(method, "Page.navigatedWithinDocument") {
            PageEvent::NavigatedWithinDocument { url: text_or_empty(fields.url) }
        } else if str_eq(method, "Page.frameNavigated") {
            match fields.frame {
                Some(fr) => PageEvent::FrameNavigated { is_main_frame: !fr.has_parent, url: text_or_empty(fr.url) },
                None => PageEvent::FrameNavigated { is_main_frame: false, url: String::new() },
            }
        } else if str_eq(method, "Page.loadEventFired") || str_eq(method, "Page.domContentEventFired") {
            PageEvent::LoadFired
        } else if str_eq(method, "Log.entryAdded") {
            let (level, text) = console_entry_from(&ConsoleEvent::LogEntry { level: fields.entry_level, text: fields.entry_text });
            PageEvent::Console(ConsoleEntry { level, text })
        } else if str_eq(method, "Runtime.consoleAPICalled") {
            let (level, text) = console_entry_from(&ConsoleEvent::ApiCall { call_type: fields.call_type, args: fields.args });
            PageEvent::Console(ConsoleEntry { level, text })
        } else {
            PageEvent::Other
        }
    }
}

/// What a session announces after an event.
#[derive(Debug, Clone, PartialEq, Eq)]
pub enum PageEffect {
    Nothing,
    /// Publish the session's summary.
    PublishState,
    /// Read the page's title into the state, then publish the summary.
    RefreshTitleThenPublish,
    /// Publish this console entry.
    PublishConsole(ConsoleEntry),
}

/// A session's page: where it is, how far it has loaded, its console, and
/// which snapshot refs are live.
#[derive(Debug)]
pub struct PageState {
    pub url: String,
    pub title: String,
    pub load_state: LoadState,
    pub console: ConsoleLog,
    pub ledger: SnapshotLedger,
}

/// What one protocol event does to the page and what it announces.
pub open spec fn page_event_spec(before: PageState, after: PageState, event: PageEvent, effect: PageEffect) -> bool {
    match event {
        PageEvent::NavigatedWithinDocument { url } => {
            &&& after.url@ == if url@.len() == 0 { before.url@ } else { url@ }
            &&& after.ledger@.current_generation == before.ledger@.current_generation + 1
            &&& after.ledger@.snapshot_generation == before.ledger@.snapshot_generation
            &&& after.ledger@.minted == before.ledger@.minted
            &&& after.load_state == before.load_state
            &&& after.console@ == before.console@
            &&& after.title == before.title
            &&& effect == PageEffect::PublishState
        },
        PageEvent::FrameNavigated { is_main_frame, url } => if is_main_frame {
            &&& after.url@ == url@
            &&& after.ledger@.current_generation == before.ledger@.current_generation + 1
            &&& after.ledger@.snapshot_generation == before.ledger@.snapshot_generation
            &&& after.ledger@.minted == before.ledger@.minted
            &&& after.load_state == LoadState::Loading
            &&& after.console@.entries.len() == 0
            &&& after.console@.error_count == 0
            &&& after.title == before.title
            &&& effect == PageEffect::PublishState
        } else {
            &&& after.url == before.url
            &&& after.ledger@ == before.ledger@
            &&& after.load_state == before.load_state
            &&& after.console@ == before.console@
            &&& after.title == before.title
            &&& effect == PageEffect::Nothing
        },
        PageEvent::LoadFired => {
            &&& after.load_state == LoadState::Complete
            &&& after.url == before.url
            &&& after.ledger@ == before.ledger@
            &&& after.console@ == before.console@
            &&& after.title == before.title
            &&& effect == PageEffect::RefreshTitleThenPublish
        },
        PageEvent::Console(entry) => {
            &&& after.console@.entries == (if before.console@.entries.len() >= CONSOLE_BUFFER {
                before.console@.entries.drop_first()
            } else {
                before.console@.entries
            }).push(entry)
            &&& after.console@.error_count == before.console@.error_count
                + (if entry.level@ == "error"@ { 1nat } else { 0nat })
            &&& after.url == before.url
            &&& after.ledger@ == before.ledger@
            &&& after.load_state == before.load_state
            &&& after.title == before.title
            &&& effect is PublishConsole
            &&& effect->PublishConsole_0.level@ == entry.level@
            &&& effect->PublishConsole_0.text@ == entry.text@
        },
        PageEvent::Other => {
            &&& after.url == before.url
            &&& after.ledger@ == before.ledger@
            &&& after.load_state == before.load_state
            &&& after.console@ == before.console@
            &&& after.title == before.title
            &&& effect == PageEffect::Nothing
        },
    }
}

impl PageState {
    /// The state a bounded console and a ledger that can still advance keep.
    pub open spec fn wf(&self) -> bool {
        self.console@.entries.len() <= CONSOLE_BUFFER
    }

    /// A page before anything was opened in it.
    pub fn new(load_state: LoadState) -> (r: Self)
        ensures
            r.wf(),
            r.url@.len() == 0,
            r.title@.len() == 0,
            r.load_state == load_state,
            r.console@.entries.len() == 0,
            r.console@.error_count == 0,
            r.ledger@.current_generation == 0,
            r.ledger@.snapshot_generation is None,
    {
        PageState {
            url: String::new(),
            title: String::new(),
            load_state,
            console: ConsoleLog::new(),
            ledger: SnapshotLedger::new(),
        }
    }

    /// A navigation was asked for: the page is loading.
    pub fn begin_navigation(&mut self)
        ensures
            final(self).load_state == LoadState::Loading,
            final(self).url == old(self).url,
            final(self).title == old(self).title,
            final(self).console@ == old(self).console@,
            final(self).ledger@ == old(self).ledger@,
    {
        self.load_state = LoadState::Loading;
    }

    /// The browser accepted the navigation to `url` (reported before the
    /// commit), or refused it.
    pub fn finish_navigation(&mut self, accepted: Option<String>)
        ensures
            accepted is Some ==> final(self).url@ == accepted->0@ && final(self).load_state == old(self).load_state,
            accepted is None ==> final(self).url == old(self).url && final(self).load_state == LoadState::Failed,
            final(self).title == old(self).title,
            final(self).console@ == old(self).console@,
            final(self).ledger@ == old(self).ledger@,
    {
        match accepted {
            Some(url) => self.url = url,
            None => self.load_state = LoadState::Failed,
        }
    }

    /// Applies a protocol event. A history or fragment navigation moves the
    /// URL and retires the refs; only a main-frame commit also resets the
    /// load state and the console; a subframe navigating changes nothing.
    pub fn apply(&mut self, event: PageEvent) -> (effect: PageEffect)
        requires
            old(self).wf(),
            old(self).console@.error_count < usize::MAX,
            old(self).ledger@.current_generation < u64::MAX,
        ensures
            final(self).wf(),
            page_event_spec(*old(self), *final(self), event, effect),
    {
        match event {
            PageEvent::NavigatedWithinDocument { url } => {
                self.ledger.invalidate();
                if !url.as_str().is_empty() {
                    self.url = url;
                }
                PageEffect::PublishState
            },
            PageEvent::FrameNavigated { is_main_frame, url } => {
                if !is_main_frame {
                    return PageEffect::Nothing;
                }
                self.ledger.invalidate();
                self.url = url;
                self.load_state = LoadState::Loading;
                self.console.clear();
                PageEffect::PublishState
            },
            PageEvent::LoadFired => {
                self.load_state = LoadState::Complete;
                PageEffect::RefreshTitleThenPublish
            },
            PageEvent::Console(entry) => {
                let published = ConsoleEntry {
                    level: owned(entry.level.as_str()),
                    text: owned(entry.text.as_str()),
                };
                self.console.record(entry);
                PageEffect::PublishConsole(published)
            },
            PageEvent::Other => PageEffect::Nothing,
        }
    }
}

/// A subframe navigating leaves every snapshot ref as it was; a main-frame
/// commit or an in-document navigation retires every ref the earlier
/// snapshot minted, which is then refused as stale.
pub proof fn law_only_page_navigations_retire_refs(
    before: PageState,
    after: PageState,
    event: PageEvent,
    effect: PageEffect,
    r: Seq<char>,
    out: Result<&RefIdentity, RefError>,
)
    requires
        page_event_spec(before, after, event, effect),
        before.ledger@.snapshot_generation matches Some(g) && g <= before.ledger@.current_generation,
        parse_ref_spec(r) is Some,
        validate_outcome(after.ledger@, r, out),
    ensures
        event matches PageEvent::FrameNavigated { is_main_frame, .. } && !is_main_frame
            ==> validate_outcome(before.ledger@, r, out),
        (event is NavigatedWithinDocument || (event matches PageEvent::FrameNavigated { is_main_frame, .. } && is_main_frame))
            ==> out matches Err(RefError::Stale { .. }),
{
}

/// A `Page.frameNavigated` event whose frame is an iframe (it has a
/// `parentId`), or that carries no frame, leaves the outer page, its refs
/// and its console alone and announces nothing; one for the main frame moves
/// the page to the frame's URL, retires the refs, and starts loading afresh
/// with an empty console.
pub proof fn law_only_a_main_frame_commit_moves_the_page(
    fields: ProtocolEventFields,
    event: PageEvent,
    before: PageState,
    after: PageState,
    effect: PageEffect,
)
    requires
        protocol_event_spec("Page.frameNavigated"@, fields, event),
        page_event_spec(before, after, event, effect),
    ensures
        !(fields.frame matches Some(fr) && !fr.has_parent) ==> {
            &&& after.url == before.url
            &&& after.ledger@ == before.ledger@
            &&& after.load_state == before.load_state
            &&& after.console@ == before.console@
            &&& effect == PageEffect::Nothing
        },
        fields.frame matches Some(fr) && !fr.has_parent ==> {
            &&& after.url@ == opt_text(fields.frame->0.url, Seq::empty())
            &&& after.ledger@.current_generation == before.ledger@.current_generation + 1
            &&& after.load_state == LoadState::Loading
            &&& after.console@.entries.len() == 0
            &&& after.console@.error_count == 0
            &&& effect == PageEffect::PublishState
        },
{
    reveal_strlit("Page.frameNavigated");
    reveal_strlit("Page.navigatedWithinDocument");
    assert("Page.frameNavigated"@ != "Page.navigatedWithinDocument"@) by {
        assert("Page.frameNavigated"@[5] != "Page.navigatedWithinDocument"@[5]);
    }
    if fields.frame matches Some(fr) && !fr.has_parent {
        assert(event matches PageEvent::FrameNavigated { is_main_frame, .. } && is_main_frame);
    }
}

} // verus!
