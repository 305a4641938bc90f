//! The identities under which a session-close workflow runs for one
//! conversation boundary.
use vstd::prelude::*;
use vstd::string::StringSliceAdditionalSpecFns;

use crate::digest::{lower_hex, lower_hex_chars, sha256, sha256_digest};
use crate::text::{into_string, push_str_chars};

verus! {

/// A conversation boundary that may start session-close workflows.
#[derive(Debug, Clone)]
pub struct SessionCloseContext {
    /// The boundary's unique identity: retries of one launched workflow keep
    /// it; later archive-less boundaries never collide with it.
    pub boundary_id: String,
    pub agent_id: String,
    pub agent_name: String,
    pub workspace: String,
    pub provider: String,
    pub boundary_reason: String,
    pub archive_available: bool,
    pub conversation_id: Option<String>,
    pub source_sequence: Option<u64>,
}

/// `session-close:<invoker>:<boundary>`.
pub open spec fn idempotency_key_spec(invoker_id: Seq<char>, boundary_id: Seq<char>) -> Seq<char> {
    "session-close:"@ + invoker_id + ":"@ + boundary_id
}

/// The key under which memory commits of one invoker at one boundary are deduplicated.
pub fn session_close_idempotency_key(invoker_id: &str, boundary_id: &str) -> (r: String)
    ensures
        r@ == idempotency_key_spec(invoker_id@, boundary_id@),
{
    let mut out: Vec<char> = Vec::new();
    push_str_chars(&mut out, "session-close:");
    push_str_chars(&mut out, invoker_id);
    push_str_chars(&mut out, ":");
    push_str_chars(&mut out, boundary_id);
    into_string(out)
}

/// `session-close-` and the hex SHA-256 of the invoker, a NUL and the boundary.
pub open spec fn run_id_spec(invoker_id: Seq<char>, boundary_id: Seq<char>) -> Seq<char> {
    "session-close-"@ + lower_hex(sha256_digest(vstd::utf8::encode_utf8(invoker_id + seq!['\0'] + boundary_id)))
}

/// The workflow run identity of one invoker at one boundary: the same on
/// every retry.
pub fn session_close_run_id(invoker_id: &str, boundary_id: &str) -> (r: String)
    ensures
        r@ == run_id_spec(invoker_id@, boundary_id@),
{
    let mut material: Vec<char> = Vec::new();
    push_str_chars(&mut material, invoker_id);
    material.push('\0');
    push_str_chars(&mut material, boundary_id);
    assert(material@ =~= invoker_id@ + seq!['\0'] + boundary_id@);
    let text = into_string(material);
    let bytes = text.as_str().as_bytes();
    assert(bytes@ == vstd::utf8::encode_utf8(invoker_id@ + seq!['\0'] + boundary_id@));
    let digest = sha256(bytes);
    let hex = lower_hex_chars(digest.as_slice());
    let mut out: Vec<char> = Vec::new();
    push_str_chars(&mut out, "session-close-");
    let ghost prefix = out@;
    let mut i: usize = 0;
    while i < hex.len()
        invariant
            i <= hex@.len(),
            out@ == prefix + hex@.take(i as int),
        decreases hex@.len() - i,
    {
        out.push(hex[i]);
        assert(hex@.take(i + 1) =~= hex@.take(i as int).push(hex@[i as int]));
        i = i + 1;
    }
    assert(hex@.take(hex@.len() as int) =~= hex@);
    into_string(out)
}

/// What claiming a run directory finds and does.
#[derive(Debug, Clone, Copy, PartialEq, Eq, Structural)]
pub enum RunClaim {
    /// The run already holds durable state: it was accepted before.
    AlreadyAccepted,
    /// Nothing is there yet: create the directory.
    Create,
    /// A partial run is there: remove it, then create the directory.
    Repair,
    /// Something unexpected is at the run's path: leave it alone.
    RefuseUnexpected,
}

/// Decides a claim from what the run directory holds.
pub fn claim_decision(state_file_exists: bool, run_root_exists: bool, run_root_named_for_run: bool) -> (r: RunClaim)
    ensures
        r == if state_file_exists {
            RunClaim::AlreadyAccepted
        } else if !run_root_exists {
            RunClaim::Create
        } else if run_root_named_for_run {
            RunClaim::Repair
        } else {
            RunClaim::RefuseUnexpected
        },
{
    if state_file_exists {
        RunClaim::AlreadyAccepted
    } else if !run_root_exists {
        RunClaim::Create
    } else if run_root_named_for_run {
        RunClaim::Repair
    } else {
        RunClaim::RefuseUnexpected
    }
}

/// One invoker's keys at two boundaries are equal only when the boundaries
/// are: later boundaries never collide with earlier ones.
pub proof fn law_distinct_boundaries_get_distinct_keys(invoker_id: Seq<char>, a: Seq<char>, b: Seq<char>)
    requires
        idempotency_key_spec(invoker_id, a) == idempotency_key_spec(invoker_id, b),
    ensures
        a == b,
{
    let p = "session-close:"@ + invoker_id + ":"@;
    let ka = idempotency_key_spec(invoker_id, a);
    let kb = idempotency_key_spec(invoker_id, b);
    assert(ka == p + a);
    assert(kb == p + b);
    assert(ka.skip(p.len() as int) =~= a);
    assert(kb.skip(p.len() as int) =~= b);
}

/// A value the session-close workflow receives in its input.
#[derive(Debug, Clone, PartialEq, Eq)]
pub enum InputValue {
    Text(String),
    Flag(bool),
    Count(u64),
}

pub open spec fn text_entry(key: Seq<char>, value: Seq<char>) -> (Seq<char>, InputValueView) {
    (key, InputValueView::Text(value))
}

/// An input value by its view.
pub enum InputValueView {
    Text(Seq<char>),
    Flag(bool),
    Count(u64),
}

pub open spec fn entry_view(e: (String, InputValue)) -> (Seq<char>, InputValueView) {
    (e.0@, match e.1 {
        InputValue::Text(t) => InputValueView::Text(t@),
        InputValue::Flag(b) => InputValueView::Flag(b),
        InputValue::Count(n) => InputValueView::Count(n),
    })
}

pub open spec fn input_view(v: Seq<(String, InputValue)>) -> Seq<(Seq<char>, InputValueView)> {
    v.map_values(|e: (String, InputValue)| entry_view(e))
}

/// What a session-close run adds to its invoker's input, in order: who and
/// where the boundary is, why it closed, whether an archive exists, the
/// conversation (empty when none), the source sequence (zero when none),
/// and the idempotency key of the invoker at this boundary.
pub open spec fn session_close_input_spec(c: SessionCloseContext, invoker_id: Seq<char>) -> Seq<(Seq<char>, InputValueView)> {
    seq![
        text_entry("agent_id"@, c.agent_id@),
        text_entry("agent_name"@, c.agent_name@),
        text_entry("workspace"@, c.workspace@),
        text_entry("source_provider"@, c.provider@),
        text_entry("boundary_reason"@, c.boundary_reason@),
        text_entry("boundary_id"@, c.boundary_id@),
        ("archive_available"@, InputValueView::Flag(c.archive_available)),
        text_entry("conversation_id"@, match c.conversation_id { Some(x) => x@, None => Seq::empty() }),
        ("source_sequence"@, InputValueView::Count(match c.source_sequence { Some(n) => n, None => 0 })),
        text_entry("idempotency_key"@, idempotency_key_spec(invoker_id, c.boundary_id@)),
    ]
}

fn text(key: &str, value: &str) -> (r: (String, InputValue))
    ensures
        entry_view(r) == text_entry(key@, value@),
{
    (key.to_owned(), InputValue::Text(value.to_owned()))
}

fn entry(key: &str, value: InputValue) -> (r: (String, InputValue))
    ensures
        r.0@ == key@,
        r.1 == value,
{
    (key.to_owned(), value)
}

/// The entries a session-close run adds to its invoker's input.
pub fn session_close_input(context: &SessionCloseContext, invoker_id: &str) -> (r: Vec<(String, InputValue)>)
    ensures
        input_view(r@) == session_close_input_spec(*context, invoker_id@),
{
    let conversation = match &context.conversation_id {
        Some(c) => c.clone(),
        None => String::new(),
    };
    let key = session_close_idempotency_key(invoker_id, context.boundary_id.as_str());
    let out = vec![
        text("agent_id", context.agent_id.as_str()),
        text("agent_name", context.agent_name.as_str()),
        text("workspace", context.workspace.as_str()),
        text("source_provider", context.provider.as_str()),
        text("boundary_reason", context.boundary_reason.as_str()),
        text("boundary_id", context.boundary_id.as_str()),
        entry("archive_available", InputValue::Flag(context.archive_available)),
        text("conversation_id", conversation.as_str()),
        entry("source_sequence", InputValue::Count(match context.source_sequence { Some(n) => n, None => 0 })),
        text("idempotency_key", key.as_str()),
    ];
    proof {
        let spec = session_close_input_spec(*context, invoker_id@);
        assert(out@.len() == 10);
        assert(input_view(out@)[7] == spec[7]);
        assert(input_view(out@) =~= spec);
    }
    out
}

/// The provider a session-close run uses: the invoker's own, else the
/// operator's default, else `codex`.
pub fn session_close_provider(invoker_provider: Option<String>, default_provider: Option<String>) -> (r: String)
    ensures
        invoker_provider is Some ==> r@ == invoker_provider->0@,
        invoker_provider is None && default_provider is Some ==> r@ == default_provider->0@,
        invoker_provider is None && default_provider is None ==> r@ == "codex"@,
{
    match invoker_provider {
        Some(p) => p,
        None => match default_provider {
            Some(p) => p,
            None => "codex".to_owned(),
        },
    }
}

/// The workspace a session-close run uses: the invoker's own, else the boundary's.
pub fn session_close_workspace(invoker_workspace: Option<String>, context: &SessionCloseContext) -> (r: String)
    ensures
        invoker_workspace is Some ==> r@ == invoker_workspace->0@,
        invoker_workspace is None ==> r@ == context.workspace@,
{
    match invoker_workspace {
        Some(w) => w,
        None => context.workspace.clone(),
    }
}

} // verus!
