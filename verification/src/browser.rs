//! Browser-session rules that do not need a running browser: what an operation
//! may target, what a caller may send, and how failures are reported.
use vstd::prelude::*;

use crate::cdp::{cdp_error_message_spec, CdpError};
use crate::engine::{engine_error_message_spec, EngineError};
use crate::page::{json_quoted, json_string_literal};
use crate::snapshot::{ref_error_code_spec, ref_error_message_spec, RefError};
use crate::text::{
    ascii_lower, ascii_lower_seq, chars_eq, chars_of, contains_exec, contains_seq, decimal_chars,
    into_string, join_spec, push_decimal, push_joined, push_slice, push_str_chars, starts_with,
    starts_with_exec, str_eq, lemma_trim_idempotent, lemma_trim_unchanged, strings_view, trim_bounds, trim_spec,
};

verus! {

/// Why a browser operation failed.
#[derive(Debug, Clone, PartialEq, Eq)]
pub enum BrowserError {
    /// No session matches the given target.
    NotFound { target: String },
    /// The target matched more than one session.
    Ambiguous { target: String, matches: Vec<String> },
    /// The host has no usable browser, or one could not be started.
    Engine(EngineError),
    /// The protocol call failed.
    Cdp(CdpError),
    /// A snapshot ref could not be used.
    Ref(RefError),
    /// A `wait` predicate never became true.
    WaitTimeout { condition: String, timeout_ms: u64 },
    /// The caller supplied something this operation cannot accept.
    Invalid { detail: String },
    /// A filesystem operation around a screenshot failed.
    Io { detail: String },
    /// A mirrored presentation tried to drive the page.
    ReadOnlyPresentation,
}

/// The stable machine-readable code of each browser failure; ref failures keep their own.
pub open spec fn browser_error_code_spec(e: BrowserError) -> Seq<char> {
    match e {
        BrowserError::NotFound { .. } => "browser_not_found"@,
        BrowserError::Ambiguous { .. } => "browser_ambiguous"@,
        BrowserError::Engine(_) => "browser_engine_unavailable"@,
        BrowserError::Cdp(_) => "browser_protocol_error"@,
        BrowserError::Ref(error) => ref_error_code_spec(error),
        BrowserError::WaitTimeout { .. } => "browser_wait_timeout"@,
        BrowserError::Invalid { .. } => "browser_invalid_request"@,
        BrowserError::Io { .. } => "browser_io_error"@,
        BrowserError::ReadOnlyPresentation => "browser_read_only_presentation"@,
    }
}

/// The operator-facing sentence for each browser failure.
pub open spec fn browser_error_message_spec(e: BrowserError) -> Seq<char> {
    match e {
        BrowserError::NotFound { target } =>
            "no browser session matches "@ + target@
                + ". Run `wardian browser list` to see open sessions."@,
        BrowserError::Ambiguous { target, matches } =>
            target@ + " matches "@ + decimal_chars(matches@.len()) + " sessions ("@
                + join_spec(strings_view(matches@), ", "@) + "). Use a full id."@,
        BrowserError::Engine(error) => engine_error_message_spec(error),
        BrowserError::Cdp(error) => cdp_error_message_spec(error),
        BrowserError::Ref(error) => ref_error_message_spec(error),
        BrowserError::WaitTimeout { condition, timeout_ms } =>
            "timed out after "@ + decimal_chars(timeout_ms as nat) + "ms waiting for "@ + condition@,
        BrowserError::Invalid { detail } => detail@,
        BrowserError::Io { detail } => detail@,
        BrowserError::ReadOnlyPresentation =>
            "this presentation is mirroring the page read-only; another surface holds the drive lease"@,
    }
}

impl BrowserError {
    /// Stable machine-readable code for `--json` consumers.
    pub fn code(&self) -> (r: &'static str)
        ensures
            r@ == browser_error_code_spec(*self),
    {
        match self {
            BrowserError::NotFound { .. } => "browser_not_found",
            BrowserError::Ambiguous { .. } => "browser_ambiguous",
            BrowserError::Engine(_) => "browser_engine_unavailable",
            BrowserError::Cdp(_) => "browser_protocol_error",
            BrowserError::Ref(error) => error.code(),
            BrowserError::WaitTimeout { .. } => "browser_wait_timeout",
            BrowserError::Invalid { .. } => "browser_invalid_request",
            BrowserError::Io { .. } => "browser_io_error",
            BrowserError::ReadOnlyPresentation => "browser_read_only_presentation",
        }
    }

    /// The operator-facing explanation of this failure.
    pub fn message(&self) -> (r: String)
        ensures
            r@ == browser_error_message_spec(*self),
    {
        match self {
            BrowserError::Engine(error) => error.message(),
            BrowserError::Cdp(error) => error.message(),
            BrowserError::Ref(error) => error.message(),
            _ => {
                let mut out: Vec<char> = Vec::new();
                match self {
                    BrowserError::NotFound { target } => {
                        push_str_chars(&mut out, "no browser session matches ");
                        push_str_chars(&mut out, target.as_str());
                        push_str_chars(&mut out, ". Run `wardian browser list` to see open sessions.");
                    },
                    BrowserError::Ambiguous { target, matches } => {
                        push_str_chars(&mut out, target.as_str());
                        push_str_chars(&mut out, " matches ");
                        push_decimal(&mut out, matches.len() as u64);
                        push_str_chars(&mut out, " sessions (");
                        push_joined(&mut out, matches.as_slice(), ", ");
                        push_str_chars(&mut out, "). Use a full id.");
                    },
                    BrowserError::WaitTimeout { condition, timeout_ms } => {
                        push_str_chars(&mut out, "timed out after ");
                        push_decimal(&mut out, *timeout_ms);
                        push_str_chars(&mut out, "ms waiting for ");
                        push_str_chars(&mut out, condition.as_str());
                    },
                    BrowserError::Invalid { detail } => {
                        push_str_chars(&mut out, detail.as_str());
                    },
                    BrowserError::Io { detail } => {
                        push_str_chars(&mut out, detail.as_str());
                    },
                    _ => {
                        push_str_chars(&mut out, "this presentation is mirroring the page read-only; another surface holds the drive lease");
                    },
                }
                proof {
                    assert(out@ =~= browser_error_message_spec(*self));
                }
                into_string(out)
            },
        }
    }
}

/// A DOM action against a snapshot ref.
#[derive(Debug, Clone, PartialEq, Eq)]
pub enum ElementAction {
    Click,
    Hover,
    Fill(String),
    Press(String),
    Select(String),
    Scroll,
}

pub open spec fn element_action_name_spec(a: ElementAction) -> Seq<char> {
    match a {
        ElementAction::Click => "click"@,
        ElementAction::Hover => "hover"@,
        ElementAction::Fill(_) => "fill"@,
        ElementAction::Press(_) => "press"@,
        ElementAction::Select(_) => "select"@,
        ElementAction::Scroll => "scroll"@,
    }
}

impl ElementAction {
    /// The verb an operator typed, echoed back in results and logs.
    pub fn name(&self) -> (r: &'static str)
        ensures
            r@ == element_action_name_spec(*self),
    {
        match self {
            ElementAction::Click => "click",
            ElementAction::Hover => "hover",
            ElementAction::Fill(_) => "fill",
            ElementAction::Press(_) => "press",
            ElementAction::Select(_) => "select",
            ElementAction::Scroll => "scroll",
        }
    }
}

/// What `get` can read off the page.
#[derive(Debug, Clone, Copy, PartialEq, Eq)]
pub enum PageField {
    Url,
    Title,
    Text,
    Html,
}

pub open spec fn page_field_spec(value: Seq<char>) -> Option<PageField> {
    if value == "url"@ {
        Some(PageField::Url)
    } else if value == "title"@ {
        Some(PageField::Title)
    } else if value == "text"@ {
        Some(PageField::Text)
    } else if value == "html"@ {
        Some(PageField::Html)
    } else {
        None
    }
}

fn lit_eq(s: &[char], lit: &str) -> (r: bool)
    ensures
        r == (s@ == lit@),
{
    let l = chars_of(lit);
    chars_eq(s, l.as_slice())
}

impl PageField {
    /// Reads a field from its CLI name.
    pub fn parse(value: &str) -> (r: Option<PageField>)
        ensures
            r == page_field_spec(value@),
    {
        let v = chars_of(value);
        if lit_eq(v.as_slice(), "url") {
            Some(PageField::Url)
        } else if lit_eq(v.as_slice(), "title") {
            Some(PageField::Title)
        } else if lit_eq(v.as_slice(), "text") {
            Some(PageField::Text)
        } else if lit_eq(v.as_slice(), "html") {
            Some(PageField::Html)
        } else {
            None
        }
    }
}

/// The URL schemes that could reach the local filesystem or execute script, in the order checked.
pub open spec fn blocked_scheme(i: int) -> Seq<char> {
    if i == 0 { "javascript:"@ } else if i == 1 { "data:"@ } else if i == 2 { "file:"@ } else { "vbscript:"@ }
}

/// The first blocked scheme the lowercased address starts with, if any.
pub open spec fn first_blocked(lowered: Seq<char>) -> Option<int> {
    if starts_with(lowered, blocked_scheme(0)) { Some(0) }
    else if starts_with(lowered, blocked_scheme(1)) { Some(1) }
    else if starts_with(lowered, blocked_scheme(2)) { Some(2) }
    else if starts_with(lowered, blocked_scheme(3)) { Some(3) }
    else { None }
}

/// Whether `out` is `Err(Invalid { detail })` with exactly this detail.
pub open spec fn is_invalid_with(out: Result<String, BrowserError>, detail: Seq<char>) -> bool {
    out matches Err(BrowserError::Invalid { detail: d }) && d@ == detail
}

/// What `normalize_url` owes for an address.
///
/// Bare hosts are promoted to `http://`, `http(s)` and `about:blank` pass,
/// script- and file-reaching schemes are refused, and so is any other scheme.
pub open spec fn normalize_url_outcome(input: Seq<char>, out: Result<String, BrowserError>) -> bool {
    let trimmed = trim_spec(input);
    let lowered = ascii_lower_seq(trimmed);
    if trimmed.len() == 0 {
        is_invalid_with(out, "a URL is required"@)
    } else if first_blocked(lowered) is Some {
        is_invalid_with(out, blocked_scheme(first_blocked(lowered)->0) + " URLs are not allowed in a browser surface"@)
    } else if lowered == "about:blank"@ {
        out matches Ok(url) && url@ == "about:blank"@
    } else if starts_with(lowered, "http://"@) || starts_with(lowered, "https://"@) {
        out matches Ok(url) && url@ == trimmed
    } else if contains_seq(lowered, "://"@) {
        is_invalid_with(out, trimmed + " uses a scheme a browser surface cannot open"@)
    } else {
        out matches Ok(url) && url@ == "http://"@ + trimmed
    }
}

/// Normalizing an address that normalization produced gives it back
/// unchanged.
pub proof fn law_normalizing_a_normalized_address_keeps_it(input: Seq<char>, first: Result<String, BrowserError>, second: Result<String, BrowserError>)
    requires
        normalize_url_outcome(input, first),
        first is Ok,
        normalize_url_outcome(first->Ok_0@, second),
    ensures
        second is Ok && second->Ok_0@ == first->Ok_0@,
{
    let t = trim_spec(input);
    let l = ascii_lower_seq(t);
    let s = first->Ok_0@;
    reveal_strlit("about:blank");
    reveal_strlit("http://");
    reveal_strlit("https://");
    reveal_strlit("javascript:");
    reveal_strlit("data:");
    reveal_strlit("file:");
    reveal_strlit("vbscript:");
    lemma_trim_idempotent(input);
    if l == "about:blank"@ {
        lemma_trim_unchanged(s);
        assert(ascii_lower_seq(s) =~= s);
    } else if starts_with(l, "http://"@) || starts_with(l, "https://"@) {
        assert(s == t);
    } else {
        let h = "http://"@;
        assert(s == h + t);
        assert(s[0] == 'h');
        assert(s.last() == t.last());
        lemma_trim_unchanged(s);
        let ls = ascii_lower_seq(s);
        assert(ls =~= h + l);
        assert(ls.subrange(0, 7) =~= h);
        assert(ls[0] == 'h');
        assert(!starts_with(ls, blocked_scheme(0)));
        assert(!starts_with(ls, blocked_scheme(1)));
        assert(!starts_with(ls, blocked_scheme(2)));
        assert(!starts_with(ls, blocked_scheme(3)));
        assert(ls != "about:blank"@);
    }
}

fn invalid(detail: Vec<char>) -> (e: BrowserError)
    ensures
        e matches BrowserError::Invalid { detail: d } && d@ == detail@,
{
    BrowserError::Invalid { detail: into_string(detail) }
}

fn starts_with_lit(s: &[char], lit: &str) -> (r: bool)
    ensures
        r == starts_with(s@, lit@),
{
    let l = chars_of(lit);
    starts_with_exec(s, l.as_slice())
}

/// Normalizes a user-supplied address into a URL the browser will accept.
#[verifier::loop_isolation(false)]
pub fn normalize_url(input: &str) -> (r: Result<String, BrowserError>)
    ensures
        normalize_url_outcome(input@, r),
{
    let cs = chars_of(input);
    let (a, b) = trim_bounds(cs.as_slice());
    let trimmed = &cs[a..b];
    if trimmed.len() == 0 {
        let mut d: Vec<char> = Vec::new();
        push_str_chars(&mut d, "a URL is required");
        return Err(invalid(d));
    }
    let lowered = ascii_lower(trimmed);
    let blocked: [&'static str; 4] = ["javascript:", "data:", "file:", "vbscript:"];
    let mut i: usize = 0;
    while i < 4
        invariant
            i <= 4,
            forall|j: int| 0 <= j < i ==> !starts_with(lowered@, blocked_scheme(j)),
            blocked@[0]@ == blocked_scheme(0),
            blocked@[1]@ == blocked_scheme(1),
            blocked@[2]@ == blocked_scheme(2),
            blocked@[3]@ == blocked_scheme(3),
        decreases 4 - i,
    {
        if starts_with_lit(lowered.as_slice(), blocked[i]) {
            let mut d: Vec<char> = Vec::new();
            push_str_chars(&mut d, blocked[i]);
            push_str_chars(&mut d, " URLs are not allowed in a browser surface");
            proof {
                assert(trimmed@ == trim_spec(input@));
                if i > 0 { assert(!starts_with(lowered@, blocked_scheme(0))); }
                if i > 1 { assert(!starts_with(lowered@, blocked_scheme(1))); }
                if i > 2 { assert(!starts_with(lowered@, blocked_scheme(2))); }
                assert(first_blocked(lowered@) == Some(i as int));
            }
            return Err(invalid(d));
        }
        i = i + 1;
    }
    if lit_eq(lowered.as_slice(), "about:blank") {
        return Ok("about:blank".to_owned());
    }
    if starts_with_lit(lowered.as_slice(), "http://") || starts_with_lit(lowered.as_slice(), "https://") {
        let mut out: Vec<char> = Vec::new();
        push_slice(&mut out, trimmed);
        return Ok(into_string(out));
    }
    let sep = chars_of("://");
    if contains_exec(lowered.as_slice(), sep.as_slice()) {
        let mut d: Vec<char> = Vec::new();
        push_slice(&mut d, trimmed);
        push_str_chars(&mut d, " uses a scheme a browser surface cannot open");
        return Err(invalid(d));
    }
    let mut out: Vec<char> = Vec::new();
    push_str_chars(&mut out, "http://");
    push_slice(&mut out, trimmed);
    Ok(into_string(out))
}

/// The three buckets console severities collapse into.
pub open spec fn console_level_spec(level: Seq<char>) -> Seq<char> {
    if level == "error"@ || level == "assert"@ || level == "severe"@ {
        "error"@
    } else if level == "warning"@ || level == "warn"@ {
        "warning"@
    } else {
        "info"@
    }
}

/// Collapses the protocol's several severity vocabularies into three levels.
pub fn normalize_console_level(level: &str) -> (r: String)
    ensures
        r@ == console_level_spec(level@),
{
    let v = chars_of(level);
    if lit_eq(v.as_slice(), "error") || lit_eq(v.as_slice(), "assert") || lit_eq(v.as_slice(), "severe") {
        "error".to_owned()
    } else if lit_eq(v.as_slice(), "warning") || lit_eq(v.as_slice(), "warn") {
        "warning".to_owned()
    } else {
        "info".to_owned()
    }
}

/// The DOM statements an action runs on the element it targets, `node`;
/// text values are written as JSON string literals.
pub open spec fn action_body_spec(a: ElementAction) -> Seq<char> {
    match a {
        ElementAction::Click => "node.scrollIntoView({ block: 'center' }); node.click();"@,
        ElementAction::Hover => "node.scrollIntoView({ block: 'center' }); node.dispatchEvent(new MouseEvent('mouseover', { bubbles: true })); node.dispatchEvent(new MouseEvent('mouseenter', { bubbles: true }));"@,
        ElementAction::Fill(v) => "node.focus(); node.value = "@ + json_string_literal(v@)
            + "; node.dispatchEvent(new Event('input', { bubbles: true })); node.dispatchEvent(new Event('change', { bubbles: true }));"@,
        ElementAction::Press(k) => "node.focus(); for (const type of ['keydown', 'keypress', 'keyup']) { node.dispatchEvent(new KeyboardEvent(type, { key: "@
            + json_string_literal(k@) + ", bubbles: true })); } if ("@ + json_string_literal(k@)
            + " === 'Enter' && node.form) { node.form.requestSubmit ? node.form.requestSubmit() : node.form.submit(); }"@,
        ElementAction::Select(v) => "node.value = "@ + json_string_literal(v@)
            + "; node.dispatchEvent(new Event('change', { bubbles: true }));"@,
        ElementAction::Scroll => "node.scrollIntoView({ block: 'center' });"@,
    }
}

/// The DOM statements for an action.
pub fn action_body(action: &ElementAction) -> (r: String)
    ensures
        r@ == action_body_spec(*action),
{
    let mut out: Vec<char> = Vec::new();
    match action {
        ElementAction::Click => {
            push_str_chars(&mut out, "node.scrollIntoView({ block: 'center' }); node.click();");
        },
        ElementAction::Hover => {
            push_str_chars(&mut out, "node.scrollIntoView({ block: 'center' }); node.dispatchEvent(new MouseEvent('mouseover', { bubbles: true })); node.dispatchEvent(new MouseEvent('mouseenter', { bubbles: true }));");
        },
        ElementAction::Fill(v) => {
            push_str_chars(&mut out, "node.focus(); node.value = ");
            push_str_chars(&mut out, json_quoted(v.as_str()).as_str());
            push_str_chars(&mut out, "; node.dispatchEvent(new Event('input', { bubbles: true })); node.dispatchEvent(new Event('change', { bubbles: true }));");
        },
        ElementAction::Press(k) => {
            let quoted = json_quoted(k.as_str());
            push_str_chars(&mut out, "node.focus(); for (const type of ['keydown', 'keypress', 'keyup']) { node.dispatchEvent(new KeyboardEvent(type, { key: ");
            push_str_chars(&mut out, quoted.as_str());
            push_str_chars(&mut out, ", bubbles: true })); } if (");
            push_str_chars(&mut out, quoted.as_str());
            push_str_chars(&mut out, " === 'Enter' && node.form) { node.form.requestSubmit ? node.form.requestSubmit() : node.form.submit(); }");
        },
        ElementAction::Select(v) => {
            push_str_chars(&mut out, "node.value = ");
            push_str_chars(&mut out, json_quoted(v.as_str()).as_str());
            push_str_chars(&mut out, "; node.dispatchEvent(new Event('change', { bubbles: true }));");
        },
        ElementAction::Scroll => {
            push_str_chars(&mut out, "node.scrollIntoView({ block: 'center' });");
        },
    }
    proof {
        assert(out@ =~= action_body_spec(*action));
    }
    into_string(out)
}

/// What an action's guarded script reported: `ok` succeeds, `ambiguous` and
/// `changed` refuse the ref as such, and anything else (`detached`, or no
/// text at all) finds it detached.
pub fn action_outcome(element_ref: &str, outcome: Option<&str>) -> (r: Result<(), BrowserError>)
    ensures
        outcome is Some && outcome->0@ == "ok"@ ==> r is Ok,
        outcome is Some && outcome->0@ == "ambiguous"@ ==> (r matches Err(BrowserError::Ref(RefError::Ambiguous { element_ref: e })) && e@ == element_ref@),
        outcome is Some && outcome->0@ == "changed"@ ==> (r matches Err(BrowserError::Ref(RefError::Changed { element_ref: e })) && e@ == element_ref@),
        !(outcome is Some && (outcome->0@ == "ok"@ || outcome->0@ == "ambiguous"@ || outcome->0@ == "changed"@))
            ==> (r matches Err(BrowserError::Ref(RefError::Detached { element_ref: e })) && e@ == element_ref@),
{
    proof {
        reveal_strlit("ok");
        reveal_strlit("ambiguous");
        reveal_strlit("changed");
        assert("ok"@.len() == 2);
        assert("ambiguous"@.len() == 9);
        assert("changed"@.len() == 7);
    }
    match outcome {
        Some(text) => {
            if str_eq(text, "ok") {
                return Ok(());
            }
            if str_eq(text, "ambiguous") {
                return Err(BrowserError::Ref(RefError::Ambiguous { element_ref: element_ref.to_owned() }));
            }
            if str_eq(text, "changed") {
                return Err(BrowserError::Ref(RefError::Changed { element_ref: element_ref.to_owned() }));
            }
        },
        None => {},
    }
    Err(BrowserError::Ref(RefError::Detached { element_ref: element_ref.to_owned() }))
}

/// The expression that reads a field: the whole page's, or, for text and
/// HTML, that of the first element a selector matches (throwing when none
/// does).
pub open spec fn field_expression_spec(field: PageField, selector: Option<Seq<char>>) -> Seq<char> {
    match (field, selector) {
        (PageField::Url, _) => "window.location.href"@,
        (PageField::Title, _) => "document.title"@,
        (PageField::Text, None) => "document.body ? document.body.innerText : ''"@,
        (PageField::Html, None) => "document.documentElement.outerHTML"@,
        (PageField::Text, Some(sel)) => "(() => { const node = document.querySelector("@ + json_string_literal(sel)
            + "); if (!node) throw new Error('no element matches ' + "@ + json_string_literal(sel)
            + "); return "@ + "node.innerText"@ + "; })()"@,
        (PageField::Html, Some(sel)) => "(() => { const node = document.querySelector("@ + json_string_literal(sel)
            + "); if (!node) throw new Error('no element matches ' + "@ + json_string_literal(sel)
            + "); return "@ + "node.outerHTML"@ + "; })()"@,
    }
}

fn push_selected(out: &mut Vec<char>, selector: &str, read: &str)
    ensures
        final(out)@ == old(out)@ + "(() => { const node = document.querySelector("@ + json_string_literal(selector@)
            + "); if (!node) throw new Error('no element matches ' + "@ + json_string_literal(selector@)
            + "); return "@ + read@ + "; })()"@,
{
    let quoted = json_quoted(selector);
    push_str_chars(out, "(() => { const node = document.querySelector(");
    push_str_chars(out, quoted.as_str());
    push_str_chars(out, "); if (!node) throw new Error('no element matches ' + ");
    push_str_chars(out, quoted.as_str());
    push_str_chars(out, "); return ");
    push_str_chars(out, read);
    push_str_chars(out, "; })()");
}

/// The expression `get` evaluates for a field.
pub fn field_expression(field: PageField, selector: Option<&str>) -> (r: String)
    ensures
        r@ == field_expression_spec(field, match selector { Some(s) => Some(s@), None => None }),
{
    let mut out: Vec<char> = Vec::new();
    match (field, selector) {
        (PageField::Url, _) => push_str_chars(&mut out, "window.location.href"),
        (PageField::Title, _) => push_str_chars(&mut out, "document.title"),
        (PageField::Text, None) => push_str_chars(&mut out, "document.body ? document.body.innerText : ''"),
        (PageField::Html, None) => push_str_chars(&mut out, "document.documentElement.outerHTML"),
        (PageField::Text, Some(sel)) => push_selected(&mut out, sel, "node.innerText"),
        (PageField::Html, Some(sel)) => push_selected(&mut out, sel, "node.outerHTML"),
    }
    proof {
        assert(out@ =~= field_expression_spec(field, match selector { Some(s) => Some(s@), None => None }));
    }
    into_string(out)
}

/// What `Page.navigate` answered: an error text fails the navigation as a
/// protocol failure of that method.
pub fn navigation_outcome(error_text: Option<String>) -> (r: Result<(), BrowserError>)
    ensures
        error_text is None ==> r is Ok,
        error_text is Some ==> (r matches Err(BrowserError::Cdp(CdpError::Protocol { method, code, message }))
            && method@ == "Page.navigate"@ && code == 0 && message@ == error_text->0@),
{
    match error_text {
        None => Ok(()),
        Some(message) => Err(BrowserError::Cdp(CdpError::Protocol { method: "Page.navigate".to_owned(), code: 0, message })),
    }
}

/// The history entry a move of `delta` lands on, given the current index
/// and each entry's id (`None` where the browser gave none): moving off
/// either end is refused, as is an entry without an id.
pub fn history_entry(current: i64, delta: i64, entry_ids: &[Option<i64>]) -> (r: Result<i64, BrowserError>)
    requires
        i64::MIN <= current + delta <= i64::MAX,
    ensures
        (current + delta < 0 || current + delta >= entry_ids@.len()) ==> (r matches Err(BrowserError::Invalid { detail })
            && detail@ == (if delta < 0 { "there is no earlier page in this session's history"@ } else { "there is no later page in this session's history"@ })),
        0 <= current + delta < entry_ids@.len() && entry_ids@[current + delta] is Some
            ==> r == Ok::<i64, BrowserError>(entry_ids@[current + delta]->0),
        0 <= current + delta < entry_ids@.len() && entry_ids@[current + delta] is None
            ==> (r matches Err(BrowserError::Invalid { detail }) && detail@ == "the browser returned a history entry without an id"@),
{
    let target = current + delta;
    if target < 0 || target as u64 >= entry_ids.len() as u64 {
        let detail = if delta < 0 {
            "there is no earlier page in this session's history".to_owned()
        } else {
            "there is no later page in this session's history".to_owned()
        };
        return Err(BrowserError::Invalid { detail });
    }
    match entry_ids[target as usize] {
        Some(id) => Ok(id),
        None => Err(BrowserError::Invalid { detail: "the browser returned a history entry without an id".to_owned() }),
    }
}

/// A viewport is usable when both sides are positive.
pub fn check_viewport(width: u32, height: u32) -> (r: Result<(), BrowserError>)
    ensures
        width > 0 && height > 0 ==> r is Ok,
        !(width > 0 && height > 0) ==> (r matches Err(BrowserError::Invalid { detail })
            && detail@ == "viewport width and height must both be greater than zero"@),
{
    if width == 0 || height == 0 {
        return Err(BrowserError::Invalid { detail: "viewport width and height must both be greater than zero".to_owned() });
    }
    Ok(())
}

/// The pointer events a surface forwards.
pub open spec fn forwarded_pointer_event(t: Seq<char>) -> bool {
    t == "mousePressed"@ || t == "mouseReleased"@ || t == "mouseMoved"@ || t == "mouseWheel"@
}

/// The key events a surface forwards.
pub open spec fn forwarded_key_event(t: Seq<char>) -> bool {
    t == "keyDown"@ || t == "keyUp"@ || t == "rawKeyDown"@ || t == "char"@
}

/// Refuses a pointer event a surface does not forward.
pub fn check_pointer_event(event_type: &str) -> (r: Result<(), BrowserError>)
    ensures
        forwarded_pointer_event(event_type@) ==> r is Ok,
        !forwarded_pointer_event(event_type@) ==> (r matches Err(BrowserError::Invalid { detail })
            && detail@ == event_type@ + " is not a pointer event this surface forwards"@),
{
    if str_eq(event_type, "mousePressed") || str_eq(event_type, "mouseReleased") || str_eq(event_type, "mouseMoved")
        || str_eq(event_type, "mouseWheel") {
        return Ok(());
    }
    let mut out: Vec<char> = Vec::new();
    push_str_chars(&mut out, event_type);
    push_str_chars(&mut out, " is not a pointer event this surface forwards");
    Err(BrowserError::Invalid { detail: into_string(out) })
}

/// Refuses a key event a surface does not forward.
pub fn check_key_event(event_type: &str) -> (r: Result<(), BrowserError>)
    ensures
        forwarded_key_event(event_type@) ==> r is Ok,
        !forwarded_key_event(event_type@) ==> (r matches Err(BrowserError::Invalid { detail })
            && detail@ == event_type@ + " is not a key event this surface forwards"@),
{
    if str_eq(event_type, "keyDown") || str_eq(event_type, "keyUp") || str_eq(event_type, "rawKeyDown")
        || str_eq(event_type, "char") {
        return Ok(());
    }
    let mut out: Vec<char> = Vec::new();
    push_str_chars(&mut out, event_type);
    push_str_chars(&mut out, " is not a key event this surface forwards");
    Err(BrowserError::Invalid { detail: into_string(out) })
}

/// An evaluation's exception, as far as a report reads it: the thrown
/// value's description and the exception's own text.
#[derive(Debug, Clone, PartialEq, Eq)]
pub struct EvaluationException {
    pub description: Option<String>,
    pub text: Option<String>,
}

/// What `Runtime.evaluate` answered: an exception fails the evaluation with
/// its description, else its text, else `evaluation failed`; otherwise the
/// result's value, or `null` when it has none. `V` is the protocol's JSON value.
pub fn evaluation_outcome<V>(exception: Option<EvaluationException>, value: Option<V>, null: V) -> (r: Result<V, BrowserError>)
    ensures
        exception is None ==> r == Ok::<V, BrowserError>(match value { Some(v) => v, None => null }),
        exception is Some ==> (r matches Err(BrowserError::Cdp(CdpError::Protocol { method, code, message }))
            && method@ == "Runtime.evaluate"@ && code == 0
            && message@ == (match exception->0.description {
                Some(d) => d@,
                None => match exception->0.text {
                    Some(t) => t@,
                    None => "evaluation failed"@,
                },
            })),
{
    match exception {
        Some(e) => {
            let message = match e.description {
                Some(d) => d,
                None => match e.text {
                    Some(t) => t,
                    None => "evaluation failed".to_owned(),
                },
            };
            Err(BrowserError::Cdp(CdpError::Protocol { method: "Runtime.evaluate".to_owned(), code: 0, message }))
        },
        None => Ok(match value {
            Some(v) => v,
            None => null,
        }),
    }
}

/// The parameters `Input.dispatchKeyEvent` receives for a surface's key
/// event.
#[derive(Debug, Clone, PartialEq, Eq)]
pub struct KeyEventParams {
    pub event_type: String,
    pub key: String,
    pub code: String,
    pub modifiers: u32,
    /// Present only when the event carries text.
    pub text: Option<String>,
    /// The Windows virtual key code Blink acts on, where the key has one:
    /// without it an editing key such as Backspace does nothing.
    pub windows_virtual_key_code: Option<i64>,
}

/// The key event a surface forwards: refused unless its type is one a
/// surface forwards, else the type, key, code and modifiers as given, with
/// the text when there is one, and the virtual key code of the key where
/// it has one.
pub fn key_event_params(event_type: &str, key: &str, code: &str, text: Option<&str>, modifiers: u32) -> (r: Result<KeyEventParams, BrowserError>)
    ensures
        !forwarded_key_event(event_type@) ==> (r matches Err(BrowserError::Invalid { detail })
            && detail@ == event_type@ + " is not a key event this surface forwards"@),
        forwarded_key_event(event_type@) ==> (r matches Ok(p)
            && p.event_type@ == event_type@ && p.key@ == key@ && p.code@ == code@ && p.modifiers == modifiers
            && (match p.text { Some(t) => text is Some && t@ == text->0@, None => text is None })
            && p.windows_virtual_key_code == crate::keys::virtual_key_spec(key@, code@)),
{
    match check_key_event(event_type) {
        Err(e) => Err(e),
        Ok(()) => Ok(KeyEventParams {
            event_type: event_type.to_owned(),
            key: key.to_owned(),
            code: code.to_owned(),
            modifiers,
            text: match text {
                Some(t) => Some(t.to_owned()),
                None => None,
            },
            windows_virtual_key_code: crate::keys::virtual_key_code(key, code),
        }),
    }
}

} // verus!
