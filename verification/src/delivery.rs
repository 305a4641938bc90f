//! Planning and sequencing the bytes that deliver a prompt to a terminal.
use vstd::prelude::*;
use vstd::string::StringSliceAdditionalSpecFns;

use crate::text::{chars_of, contains_char, into_string, push_str_chars};

verus! {

/// The delivery state reported once the submit key has been written.
pub const DELIVERY_STATE_SUBMIT_SENT_UNCONFIRMED: &'static str = "submit_sent_unconfirmed";

/// How a provider wants bracketed paste used.
#[derive(Debug, Clone, PartialEq, Eq)]
pub struct BracketedPasteProfile {
    pub enabled: bool,
    /// Prompts at least this many bytes long are pasted even when single-line.
    pub min_bytes: usize,
}

/// How one provider's terminal accepts a prompt.
#[derive(Debug, Clone, PartialEq, Eq)]
pub struct DeliveryProfile {
    pub bracketed_paste: BracketedPasteProfile,
    /// The key sequence that submits the prompt.
    pub submit_key: String,
    /// How long to wait between the payload and the submit key.
    pub submit_delay_ms: u64,
}

#[derive(Debug, Clone, Copy, PartialEq, Eq)]
pub enum PayloadKind {
    Literal,
    BracketedPaste,
}

#[derive(Debug, Clone, PartialEq, Eq)]
pub struct TerminalPayloadPlan {
    pub payload_kind: PayloadKind,
    pub payload_bytes: Vec<u8>,
    pub submit_key: Vec<u8>,
    pub submit_delay_ms: u64,
}

#[derive(Debug, Clone, PartialEq, Eq)]
pub struct TerminalDeliveryOutcome {
    pub delivery_state: String,
    pub delivery_phase: String,
    pub observed_state: Option<String>,
    pub reason: Option<String>,
}

#[derive(Debug, Clone, PartialEq, Eq)]
pub struct TerminalDeliveryError {
    pub phase: &'static str,
    pub message: String,
    pub retry_safe: bool,
}

impl TerminalDeliveryError {
    /// A failure after which nobody can tell whether the terminal received bytes.
    pub fn terminal_state_unknown(phase: &'static str, message: String) -> (r: Self)
        ensures
            r.phase == phase,
            r.message == message,
            !r.retry_safe,
    {
        TerminalDeliveryError { phase, message, retry_safe: false }
    }

    /// The failure's text, as `Display` shows it.
    pub fn message_text(&self) -> (r: String)
        ensures
            r@ == self.message@,
    {
        self.message.clone()
    }
}

pub open spec fn paste_open() -> Seq<u8> {
    seq![0x1bu8, 0x5b, 0x32, 0x30, 0x30, 0x7e]
}

pub open spec fn paste_close() -> Seq<u8> {
    seq![0x1bu8, 0x5b, 0x32, 0x30, 0x31, 0x7e]
}

/// Wraps the prompt's UTF-8 bytes in the bracketed-paste markers `ESC[200~` and `ESC[201~`.
pub fn bracketed_paste_bytes(prompt: &str) -> (r: Vec<u8>)
    ensures
        r@ == paste_open() + prompt.spec_bytes() + paste_close(),
{
    let mut bytes: Vec<u8> = vec![0x1bu8, 0x5b, 0x32, 0x30, 0x30, 0x7e];
    let body = prompt.as_bytes();
    let ghost start = bytes@;
    let mut i: usize = 0;
    while i < body.len()
        invariant
            i <= body@.len(),
            bytes@ == start + body@.take(i as int),
        decreases body@.len() - i,
    {
        bytes.push(body[i]);
        assert(body@.take(i + 1) =~= body@.take(i as int).push(body@[i as int]));
        i = i + 1;
    }
    assert(body@.take(body@.len() as int) =~= body@);
    let ghost mid = bytes@;
    bytes.push(0x1b);
    bytes.push(0x5b);
    bytes.push(0x32);
    bytes.push(0x30);
    bytes.push(0x31);
    bytes.push(0x7e);
    assert(bytes@ =~= paste_open() + prompt.spec_bytes() + paste_close());
    bytes
}

/// Whether a prompt is pasted: it is non-empty, the provider pastes, and it is
/// multi-line or at least the provider's threshold in bytes.
pub open spec fn uses_bracketed_paste(profile: DeliveryProfile, prompt: &str) -> bool {
    prompt@.len() > 0 && profile.bracketed_paste.enabled
        && (prompt@.contains('\n') || prompt.spec_bytes().len() >= profile.bracketed_paste.min_bytes)
}

/// Chooses how a prompt is written and what follows it.
pub fn plan_terminal_payload(profile: &DeliveryProfile, prompt: &str) -> (r: TerminalPayloadPlan)
    ensures
        uses_bracketed_paste(*profile, prompt) ==> r.payload_kind == PayloadKind::BracketedPaste
            && r.payload_bytes@ == paste_open() + prompt.spec_bytes() + paste_close(),
        !uses_bracketed_paste(*profile, prompt) ==> r.payload_kind == PayloadKind::Literal
            && r.payload_bytes@ == prompt.spec_bytes(),
        r.submit_key@ == vstd::utf8::encode_utf8(profile.submit_key@),
        r.submit_delay_ms == profile.submit_delay_ms,
{
    let cs = chars_of(prompt);
    let byte_len = prompt.as_bytes().len();
    let use_bracketed_paste = cs.len() > 0 && profile.bracketed_paste.enabled
        && (contains_char(cs.as_slice(), '\n') || byte_len >= profile.bracketed_paste.min_bytes);
    let payload_kind = if use_bracketed_paste { PayloadKind::BracketedPaste } else { PayloadKind::Literal };
    let payload_bytes = if use_bracketed_paste {
        bracketed_paste_bytes(prompt)
    } else {
        vstd::slice::slice_to_vec(prompt.as_bytes())
    };
    TerminalPayloadPlan {
        payload_kind,
        payload_bytes,
        submit_key: vstd::slice::slice_to_vec(profile.submit_key.as_str().as_bytes()),
        submit_delay_ms: profile.submit_delay_ms,
    }
}


/// Where a prompt delivery stands.
#[derive(Debug, Clone, Copy, PartialEq, Eq)]
pub enum DeliveryStage {
    Planned,
    PayloadSending,
    PayloadHook,
    Delaying,
    BeforeSubmitHook,
    SubmitSending,
    Finished,
}

/// What the runner reports back after performing the last action.
#[derive(Debug, PartialEq, Eq)]
pub enum DeliveryEvent {
    Start,
    BytesSent(Result<(), String>),
    HookFinished(Result<(), TerminalDeliveryError>),
    DelayElapsed,
}

/// What the runner must do next.
#[derive(Debug, PartialEq, Eq)]
pub enum DeliveryAction {
    SendBytes(Vec<u8>),
    RunPayloadHook,
    Sleep(u64),
    RunBeforeSubmitHook,
    Finish(Result<TerminalDeliveryOutcome, TerminalDeliveryError>),
}

/// Whether `event` is the report the runner owes in `stage`.
pub open spec fn expected_event(stage: DeliveryStage, event: DeliveryEvent) -> bool {
    match stage {
        DeliveryStage::Planned => event is Start,
        DeliveryStage::PayloadSending => event is BytesSent,
        DeliveryStage::PayloadHook => event is HookFinished,
        DeliveryStage::Delaying => event is DelayElapsed,
        DeliveryStage::BeforeSubmitHook => event is HookFinished,
        DeliveryStage::SubmitSending => event is BytesSent,
        DeliveryStage::Finished => false,
    }
}

pub open spec fn is_outcome(o: TerminalDeliveryOutcome, state: Seq<char>, phase: Seq<char>,
    observed: Option<Seq<char>>, reason: Option<Seq<char>>) -> bool {
    &&& o.delivery_state@ == state
    &&& o.delivery_phase@ == phase
    &&& (match o.observed_state { Some(x) => observed == Some(x@), None => observed is None })
    &&& (match o.reason { Some(x) => reason == Some(x@), None => reason is None })
}

/// An unknown-terminal-state failure with this phase and message.
pub open spec fn is_unknown_failure(a: DeliveryAction, phase: Seq<char>, message: Seq<char>) -> bool {
    a matches DeliveryAction::Finish(Err(e)) && e.phase@ == phase && e.message@ == message && !e.retry_safe
}

/// The transition a delivery owes: stage and event to next stage and action.
pub open spec fn step_outcome(plan: TerminalPayloadPlan, stage: DeliveryStage, event: DeliveryEvent,
    next: DeliveryStage, action: DeliveryAction) -> bool {
    match (stage, event) {
        (DeliveryStage::Planned, DeliveryEvent::Start) =>
            if plan.payload_bytes@.len() == 0 {
                next == DeliveryStage::Finished
                    && (action matches DeliveryAction::Finish(Ok(o))
                    && is_outcome(o, "empty"@, "empty"@, None, Some("prompt normalized to empty"@)))
            } else {
                next == DeliveryStage::PayloadSending
                    && (action matches DeliveryAction::SendBytes(b) && b@ == plan.payload_bytes@)
            },
        (DeliveryStage::PayloadSending, DeliveryEvent::BytesSent(Err(e))) =>
            next == DeliveryStage::Finished
                && is_unknown_failure(action, "payload_send_failed"@, "Failed to send prompt payload: "@ + e@),
        (DeliveryStage::PayloadSending, DeliveryEvent::BytesSent(Ok(_))) =>
            next == DeliveryStage::PayloadHook && action == DeliveryAction::RunPayloadHook,
        (DeliveryStage::PayloadHook, DeliveryEvent::HookFinished(Err(e))) =>
            next == DeliveryStage::Finished && action == DeliveryAction::Finish(Err(e)),
        (DeliveryStage::PayloadHook, DeliveryEvent::HookFinished(Ok(_))) =>
            next == DeliveryStage::Delaying && action == DeliveryAction::Sleep(plan.submit_delay_ms),
        (DeliveryStage::Delaying, DeliveryEvent::DelayElapsed) =>
            next == DeliveryStage::BeforeSubmitHook && action == DeliveryAction::RunBeforeSubmitHook,
        (DeliveryStage::BeforeSubmitHook, DeliveryEvent::HookFinished(Err(e))) =>
            next == DeliveryStage::Finished && action == DeliveryAction::Finish(Err(e)),
        (DeliveryStage::BeforeSubmitHook, DeliveryEvent::HookFinished(Ok(_))) =>
            next == DeliveryStage::SubmitSending
                && (action matches DeliveryAction::SendBytes(b) && b@ == plan.submit_key@),
        (DeliveryStage::SubmitSending, DeliveryEvent::BytesSent(Err(e))) =>
            next == DeliveryStage::Finished
                && is_unknown_failure(action, "payload_sent_submit_failed"@,
                    "Failed to send prompt submit key after payload send: "@ + e@),
        (DeliveryStage::SubmitSending, DeliveryEvent::BytesSent(Ok(_))) =>
            next == DeliveryStage::Finished
                && (action matches DeliveryAction::Finish(Ok(o))
                && is_outcome(o, DELIVERY_STATE_SUBMIT_SENT_UNCONFIRMED@, "submit_key_sent"@,
                    Some("bytes_sent"@), None)),
        _ => false,
    }
}

/// One prompt delivery: the plan, and how far it has gone.
#[derive(Debug)]
pub struct DeliveryTransaction {
    plan: TerminalPayloadPlan,
    stage: DeliveryStage,
}

fn owned(s: &str) -> (r: String)
    ensures
        r@ == s@,
{
    s.to_owned()
}

fn prefixed(prefix: &str, detail: &String) -> (r: String)
    ensures
        r@ == prefix@ + detail@,
{
    let mut out: Vec<char> = Vec::new();
    push_str_chars(&mut out, prefix);
    push_str_chars(&mut out, detail.as_str());
    into_string(out)
}

impl DeliveryTransaction {
    /// Plans the delivery of `prompt` with `profile`; nothing is sent yet.
    pub fn new(profile: &DeliveryProfile, prompt: &str) -> (r: Self)
        ensures
            r.stage() == DeliveryStage::Planned,
            uses_bracketed_paste(*profile, prompt) ==> r.plan().payload_bytes@ == paste_open() + prompt.spec_bytes() + paste_close(),
            !uses_bracketed_paste(*profile, prompt) ==> r.plan().payload_bytes@ == prompt.spec_bytes(),
            r.plan().submit_key@ == vstd::utf8::encode_utf8(profile.submit_key@),
            r.plan().submit_delay_ms == profile.submit_delay_ms,
    {
        DeliveryTransaction { plan: plan_terminal_payload(profile, prompt), stage: DeliveryStage::Planned }
    }

    pub closed spec fn stage(&self) -> DeliveryStage {
        self.stage
    }

    pub closed spec fn plan(&self) -> TerminalPayloadPlan {
        self.plan
    }

    /// The stage this delivery is in.
    pub fn current_stage(&self) -> (r: DeliveryStage)
        ensures
            r == self.stage(),
    {
        self.stage
    }

    /// Advances the delivery by the runner's report and says what to do next.
    pub fn step(&mut self, event: DeliveryEvent) -> (action: DeliveryAction)
        requires
            expected_event(old(self).stage(), event),
        ensures
            final(self).plan() == old(self).plan(),
            step_outcome(old(self).plan(), old(self).stage(), event, final(self).stage(), action),
    {
        match (self.stage, event) {
            (DeliveryStage::Planned, _) => {
                if self.plan.payload_bytes.len() == 0 {
                    self.stage = DeliveryStage::Finished;
                    DeliveryAction::Finish(Ok(TerminalDeliveryOutcome {
                        delivery_state: owned("empty"),
                        delivery_phase: owned("empty"),
                        observed_state: None,
                        reason: Some(owned("prompt normalized to empty")),
                    }))
                } else {
                    self.stage = DeliveryStage::PayloadSending;
                    DeliveryAction::SendBytes(vstd::slice::slice_to_vec(self.plan.payload_bytes.as_slice()))
                }
            },
            (DeliveryStage::PayloadSending, DeliveryEvent::BytesSent(Err(e))) => {
                self.stage = DeliveryStage::Finished;
                DeliveryAction::Finish(Err(TerminalDeliveryError::terminal_state_unknown(
                    "payload_send_failed",
                    prefixed("Failed to send prompt payload: ", &e),
                )))
            },
            (DeliveryStage::PayloadSending, _) => {
                self.stage = DeliveryStage::PayloadHook;
                DeliveryAction::RunPayloadHook
            },
            (DeliveryStage::PayloadHook, DeliveryEvent::HookFinished(Err(e))) => {
                self.stage = DeliveryStage::Finished;
                DeliveryAction::Finish(Err(e))
            },
            (DeliveryStage::PayloadHook, _) => {
                self.stage = DeliveryStage::Delaying;
                DeliveryAction::Sleep(self.plan.submit_delay_ms)
            },
            (DeliveryStage::Delaying, _) => {
                self.stage = DeliveryStage::BeforeSubmitHook;
                DeliveryAction::RunBeforeSubmitHook
            },
            (DeliveryStage::BeforeSubmitHook, DeliveryEvent::HookFinished(Err(e))) => {
                self.stage = DeliveryStage::Finished;
                DeliveryAction::Finish(Err(e))
            },
            (DeliveryStage::BeforeSubmitHook, _) => {
                self.stage = DeliveryStage::SubmitSending;
                DeliveryAction::SendBytes(vstd::slice::slice_to_vec(self.plan.submit_key.as_slice()))
            },
            (DeliveryStage::SubmitSending, DeliveryEvent::BytesSent(Err(e))) => {
                self.stage = DeliveryStage::Finished;
                DeliveryAction::Finish(Err(TerminalDeliveryError::terminal_state_unknown(
                    "payload_sent_submit_failed",
                    prefixed("Failed to send prompt submit key after payload send: ", &e),
                )))
            },
            (_, _) => {
                self.stage = DeliveryStage::Finished;
                DeliveryAction::Finish(Ok(TerminalDeliveryOutcome {
                    delivery_state: owned(DELIVERY_STATE_SUBMIT_SENT_UNCONFIRMED),
                    delivery_phase: owned("submit_key_sent"),
                    observed_state: Some(owned("bytes_sent")),
                    reason: None,
                }))
            },
        }
    }
}

/// The submit key is only ever requested after the payload was sent and both
/// hooks succeeded: the one transition that yields it leaves the before-submit
/// hook on success, and that stage is only reached through the payload send,
/// the payload hook's success and the delay.
pub proof fn submit_key_follows_payload_and_hooks(plan: TerminalPayloadPlan, stage: DeliveryStage,
    event: DeliveryEvent, next: DeliveryStage, action: DeliveryAction)
    requires
        step_outcome(plan, stage, event, next, action),
        next == DeliveryStage::SubmitSending,
    ensures
        stage == DeliveryStage::BeforeSubmitHook,
        event matches DeliveryEvent::HookFinished(Ok(_)),
        action matches DeliveryAction::SendBytes(b) && b@ == plan.submit_key@,
{
}

/// The stages that precede the before-submit hook form one chain from the payload send.
pub proof fn before_submit_hook_follows_delay(plan: TerminalPayloadPlan, stage: DeliveryStage,
    event: DeliveryEvent, next: DeliveryStage, action: DeliveryAction)
    requires
        step_outcome(plan, stage, event, next, action),
        next == DeliveryStage::BeforeSubmitHook || next == DeliveryStage::Delaying || next == DeliveryStage::PayloadHook,
    ensures
        next == DeliveryStage::BeforeSubmitHook ==> stage == DeliveryStage::Delaying,
        next == DeliveryStage::Delaying ==> stage == DeliveryStage::PayloadHook && event matches DeliveryEvent::HookFinished(Ok(_)),
        next == DeliveryStage::PayloadHook ==> stage == DeliveryStage::PayloadSending && event matches DeliveryEvent::BytesSent(Ok(_)),
{
}

/// A failed byte send is never reported as safe to retry: once a send was
/// attempted nobody can prove that no byte reached the terminal.
pub proof fn failed_send_is_not_retry_safe(plan: TerminalPayloadPlan, stage: DeliveryStage,
    detail: String, next: DeliveryStage, action: DeliveryAction)
    requires
        step_outcome(plan, stage, DeliveryEvent::BytesSent(Err(detail)), next, action),
    ensures
        next == DeliveryStage::Finished,
        action matches DeliveryAction::Finish(Err(e)) && !e.retry_safe,
{
}

/// An empty prompt sends nothing: the delivery finishes at its first step.
pub proof fn empty_prompt_sends_nothing(plan: TerminalPayloadPlan, next: DeliveryStage, action: DeliveryAction)
    requires
        plan.payload_bytes@.len() == 0,
        step_outcome(plan, DeliveryStage::Planned, DeliveryEvent::Start, next, action),
    ensures
        next == DeliveryStage::Finished,
        action matches DeliveryAction::Finish(Ok(_)),
{
}

/// A delivery answers as its sends went: an empty payload is answered at
/// once as empty, with nothing sent; a payload that fails to send fails the
/// delivery in the `payload_send_failed` phase, and a submit key that fails
/// after the payload went out fails it in the `payload_sent_submit_failed`
/// phase, neither of them safe to retry.
pub proof fn law_a_delivery_answers_as_its_sends_went(plan: TerminalPayloadPlan, stage: DeliveryStage,
    event: DeliveryEvent, next: DeliveryStage, action: DeliveryAction)
    requires
        step_outcome(plan, stage, event, next, action),
    ensures
        stage == DeliveryStage::Planned && plan.payload_bytes@.len() == 0 ==> {
            &&& next == DeliveryStage::Finished
            &&& !(action is SendBytes)
            &&& action matches DeliveryAction::Finish(Ok(o))
                && is_outcome(o, "empty"@, "empty"@, None, Some("prompt normalized to empty"@))
        },
        stage == DeliveryStage::PayloadSending && (event matches DeliveryEvent::BytesSent(Err(_))) ==>
            (action matches DeliveryAction::Finish(Err(e)) && e.phase@ == "payload_send_failed"@ && !e.retry_safe),
        stage == DeliveryStage::SubmitSending && (event matches DeliveryEvent::BytesSent(Err(_))) ==>
            (action matches DeliveryAction::Finish(Err(e)) && e.phase@ == "payload_sent_submit_failed"@ && !e.retry_safe),
{
}

} // verus!
