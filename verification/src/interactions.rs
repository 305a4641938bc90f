//! The interaction records agents exchange (tasks, messages, notifications
//! and their replies), the rules each transition follows, and the readiness
//! of each provider's input, kept in memory beside the durable store.
use vstd::prelude::*;

use crate::mailbox::{clock_millis, clock_rfc3339_millis, millis_text, push_millis};
use crate::time::{instant_le, rfc3339_instant, rfc3339_not_after};
use crate::text::{
    chars_of, into_string, lemma_lex_facts, lex_lt, push_str_chars, push_zero_padded, str_eq, str_lt, trim_spec, trimmed_chars,
    zero_padded,
};

verus! {

// ---------------------------------------------------------------------------
// Records

#[derive(Debug, Clone, Copy, PartialEq, Eq, Structural)]
pub enum InteractionKind {
    Task,
    Message,
    Notification,
    Reply,
}

#[derive(Debug, Clone, Copy, PartialEq, Eq, Structural)]
pub enum InteractionStatus {
    Queued,
    Delivering,
    Delivered,
    AwaitingReply,
    Completed,
    Failed,
    Expired,
}

#[derive(Debug, Clone, Copy, PartialEq, Eq, Structural)]
pub enum InteractionTriggerPolicy {
    ReplyRequired,
    NotifyOnly,
    StartTurn,
}

/// Where an interaction's body lives.
#[derive(Debug, Clone, PartialEq, Eq)]
pub enum InteractionBodyRef {
    Inline { body: String },
}

#[derive(Debug, Clone, Copy, PartialEq, Eq, Structural)]
pub enum InboxNotificationKind {
    Approval,
    Update,
}

/// What an agent asks the operator, or tells them, through the Inbox.
#[derive(Debug, Clone, PartialEq, Eq)]
pub struct InboxNotificationPayload {
    pub kind: InboxNotificationKind,
    pub title: String,
    pub body: String,
    pub proposed_action: Option<String>,
    pub risk: Option<String>,
    pub choices: Vec<String>,
    pub expires_at: Option<String>,
}

/// The operator's answer to an approval.
#[derive(Debug, Clone, PartialEq, Eq)]
pub struct InboxNotificationDecision {
    pub choice: String,
    pub resolved_at: String,
}

pub struct PayloadView {
    pub kind: InboxNotificationKind,
    pub title: Seq<char>,
    pub body: Seq<char>,
    pub proposed_action: Option<Seq<char>>,
    pub risk: Option<Seq<char>>,
    pub choices: Seq<Seq<char>>,
    pub expires_at: Option<Seq<char>>,
}

impl View for InboxNotificationPayload {
    type V = PayloadView;

    open spec fn view(&self) -> PayloadView {
        PayloadView {
            kind: self.kind,
            title: self.title@,
            body: self.body@,
            proposed_action: opt_view(self.proposed_action),
            risk: opt_view(self.risk),
            choices: strings_view(self.choices@),
            expires_at: opt_view(self.expires_at),
        }
    }
}

pub open spec fn payload_view(p: Option<InboxNotificationPayload>) -> Option<PayloadView> {
    match p {
        Some(x) => Some(x@),
        None => None,
    }
}

#[derive(Debug, Clone, PartialEq, Eq)]
pub struct InteractionRecord {
    pub id: String,
    pub kind: InteractionKind,
    pub sender_session_id: Option<String>,
    pub target_session_ids: Vec<String>,
    pub status: InteractionStatus,
    pub trigger_policy: InteractionTriggerPolicy,
    pub body_ref: InteractionBodyRef,
    pub parent_interaction_id: Option<String>,
    pub created_at: String,
    pub updated_at: String,
    pub completed_at: Option<String>,
    /// The notification payload an inline body holds, decoded; `None` for
    /// other records and for a body that does not decode.
    pub payload: Option<InboxNotificationPayload>,
}

pub open spec fn opt_view(o: Option<String>) -> Option<Seq<char>> {
    match o {
        Some(s) => Some(s@),
        None => None,
    }
}

pub open spec fn strings_view(v: Seq<String>) -> Seq<Seq<char>> {
    v.map_values(|s: String| s@)
}

/// `int_{millis:013}_{counter:06}`.
pub open spec fn interaction_id_text(millis: int, counter: nat) -> Seq<char> {
    "int_"@ + millis_text(millis) + "_"@ + zero_padded(counter, 6)
}

/// `attempt_{millis:013}_{counter:06}`.
pub open spec fn attempt_id_text(millis: int, counter: nat) -> Seq<char> {
    "attempt_"@ + millis_text(millis) + "_"@ + zero_padded(counter, 6)
}

fn stamped_id(prefix: &str, millis: i64, counter: u64) -> (r: String)
    ensures
        r@ == prefix@ + millis_text(millis as int) + "_"@ + zero_padded(counter as nat, 6),
{
    let mut out: Vec<char> = Vec::new();
    push_str_chars(&mut out, prefix);
    push_millis(&mut out, millis);
    out.push('_');
    push_zero_padded(&mut out, counter, 6);
    proof { reveal_strlit("_"); }
    assert(out@ =~= prefix@ + millis_text(millis as int) + "_"@ + zero_padded(counter as nat, 6));
    into_string(out)
}

/// The interaction identity for a clock reading and a counter value.
pub fn interaction_id(millis: i64, counter: u64) -> (r: String)
    ensures
        r@ == interaction_id_text(millis as int, counter as nat),
{
    stamped_id("int_", millis, counter)
}

/// The delivery-attempt identity for a clock reading and a counter value.
pub fn attempt_id(millis: i64, counter: u64) -> (r: String)
    ensures
        r@ == attempt_id_text(millis as int, counter as nat),
{
    stamped_id("attempt_", millis, counter)
}

/// The current time as the records write it (RFC 3339, milliseconds, `Z`).
pub fn now_rfc3339_millis() -> (r: String)
    ensures
        rfc3339_instant(r@) is Some,
{
    clock_rfc3339_millis()
}

fn owned(s: &str) -> (r: String)
    ensures
        r@ == s@,
{
    s.to_owned()
}

fn copy_string(s: &String) -> (r: String)
    ensures
        r == *s,
        r@ == s@,
{
    s.clone()
}

fn copy_opt(s: &Option<String>) -> (r: Option<String>)
    ensures
        r == *s,
        opt_view(r) == opt_view(*s),
{
    match s {
        Some(v) => Some(v.clone()),
        None => None,
    }
}

fn copy_strings(v: &Vec<String>) -> (r: Vec<String>)
    ensures
        r@ == v@,
{
    let mut out: Vec<String> = Vec::new();
    let mut i: usize = 0;
    while i < v.len()
        invariant
            i <= v@.len(),
            out@ == v@.take(i as int),
        decreases v@.len() - i,
    {
        out.push(v[i].clone());
        assert(out@ =~= v@.take(i + 1));
        i = i + 1;
    }
    assert(v@.take(v@.len() as int) =~= v@);
    out
}

/// The record's fields, by their views.
pub struct RecordView {
    pub id: Seq<char>,
    pub kind: InteractionKind,
    pub sender_session_id: Option<Seq<char>>,
    pub target_session_ids: Seq<Seq<char>>,
    pub status: InteractionStatus,
    pub trigger_policy: InteractionTriggerPolicy,
    pub body: Seq<char>,
    pub parent_interaction_id: Option<Seq<char>>,
    pub created_at: Seq<char>,
    pub updated_at: Seq<char>,
    pub completed_at: Option<Seq<char>>,
    pub payload: Option<PayloadView>,
}

impl View for InteractionRecord {
    type V = RecordView;

    open spec fn view(&self) -> RecordView {
        RecordView {
            id: self.id@,
            kind: self.kind,
            sender_session_id: opt_view(self.sender_session_id),
            target_session_ids: strings_view(self.target_session_ids@),
            status: self.status,
            trigger_policy: self.trigger_policy,
            body: match self.body_ref { InteractionBodyRef::Inline { body } => body@ },
            parent_interaction_id: opt_view(self.parent_interaction_id),
            created_at: self.created_at@,
            updated_at: self.updated_at@,
            completed_at: opt_view(self.completed_at),
            payload: payload_view(self.payload),
        }
    }
}

fn copy_payload(p: &InboxNotificationPayload) -> (c: InboxNotificationPayload)
    ensures
        c@ == p@,
{
    InboxNotificationPayload {
        kind: p.kind,
        title: copy_string(&p.title),
        body: copy_string(&p.body),
        proposed_action: copy_opt(&p.proposed_action),
        risk: copy_opt(&p.risk),
        choices: copy_strings(&p.choices),
        expires_at: copy_opt(&p.expires_at),
    }
}

fn copy_record(r: &InteractionRecord) -> (c: InteractionRecord)
    ensures
        c@ == r@,
{
    InteractionRecord {
        id: copy_string(&r.id),
        kind: r.kind,
        sender_session_id: copy_opt(&r.sender_session_id),
        target_session_ids: copy_strings(&r.target_session_ids),
        status: r.status,
        trigger_policy: r.trigger_policy,
        body_ref: match &r.body_ref {
            InteractionBodyRef::Inline { body } => InteractionBodyRef::Inline { body: copy_string(body) },
        },
        parent_interaction_id: copy_opt(&r.parent_interaction_id),
        created_at: copy_string(&r.created_at),
        updated_at: copy_string(&r.updated_at),
        completed_at: copy_opt(&r.completed_at),
        payload: match &r.payload {
            Some(p) => Some(copy_payload(p)),
            None => None,
        },
    }
}

pub open spec fn records_view(v: Seq<InteractionRecord>) -> Seq<RecordView> {
    v.map_values(|r: InteractionRecord| r@)
}

/// No two entries share a key.
pub open spec fn keys_distinct<T>(s: Seq<T>, key: spec_fn(T) -> Seq<char>) -> bool {
    forall|i: int, j: int| 0 <= i < s.len() && 0 <= j < s.len() && i != j ==> key(#[trigger] s[i]) != key(#[trigger] s[j])
}

pub open spec fn has_key<T>(s: Seq<T>, key: spec_fn(T) -> Seq<char>, k: Seq<char>) -> bool {
    exists|i: int| 0 <= i < s.len() && key(#[trigger] s[i]) == k
}

/// The entry with the key, in a collection whose keys are distinct.
pub open spec fn entry_for<T>(s: Seq<T>, key: spec_fn(T) -> Seq<char>, k: Seq<char>) -> T {
    s[choose|i: int| 0 <= i < s.len() && key(#[trigger] s[i]) == k]
}

/// `s` with `x` replacing the entry of the same key, or added after the rest.
pub open spec fn upsert_by<T>(s: Seq<T>, key: spec_fn(T) -> Seq<char>, x: T) -> Seq<T> {
    if has_key(s, key, key(x)) {
        s.update(choose|i: int| 0 <= i < s.len() && key(#[trigger] s[i]) == key(x), x)
    } else {
        s.push(x)
    }
}

proof fn lemma_upsert_by<T>(s: Seq<T>, key: spec_fn(T) -> Seq<char>, x: T)
    requires
        keys_distinct(s, key),
    ensures
        keys_distinct(upsert_by(s, key, x), key),
        has_key(upsert_by(s, key, x), key, key(x)),
        entry_for(upsert_by(s, key, x), key, key(x)) == x,
        forall|k: Seq<char>| k != key(x) ==> (has_key(upsert_by(s, key, x), key, k) <==> has_key(s, key, k)),
        forall|k: Seq<char>| k != key(x) && has_key(s, key, k) ==> entry_for(upsert_by(s, key, x), key, k) == entry_for(s, key, k),
{
    let u = upsert_by(s, key, x);
    if has_key(s, key, key(x)) {
        let m = choose|i: int| 0 <= i < s.len() && key(#[trigger] s[i]) == key(x);
        assert(u[m] == x);
    } else {
        assert(u[s.len() as int] == x);
    }
    assert forall|k: Seq<char>| k != key(x) implies (has_key(u, key, k) <==> has_key(s, key, k)) by {
        if has_key(u, key, k) {
            let i = choose|i: int| 0 <= i < u.len() && key(#[trigger] u[i]) == k;
            assert(s[i] == u[i]);
        }
        if has_key(s, key, k) {
            let i = choose|i: int| 0 <= i < s.len() && key(#[trigger] s[i]) == k;
            assert(u[i] == s[i]);
        }
    }
    assert forall|k: Seq<char>| k != key(x) && has_key(s, key, k) implies entry_for(u, key, k) == entry_for(s, key, k) by {
        let i = choose|i: int| 0 <= i < u.len() && key(#[trigger] u[i]) == k;
        let j = choose|i: int| 0 <= i < s.len() && key(#[trigger] s[i]) == k;
        assert(u[i] == s[i]);
    }
    let w = choose|i: int| 0 <= i < u.len() && key(#[trigger] u[i]) == key(x);
}

/// Records are keyed by id.
pub open spec fn record_key() -> spec_fn(RecordView) -> Seq<char> {
    |r: RecordView| r.id
}

pub open spec fn has_record(s: Seq<RecordView>, id: Seq<char>) -> bool {
    has_key(s, record_key(), id)
}

pub open spec fn record_with(s: Seq<RecordView>, id: Seq<char>) -> RecordView {
    entry_for(s, record_key(), id)
}

pub open spec fn body_view(b: InteractionBodyRef) -> Seq<char> {
    match b {
        InteractionBodyRef::Inline { body } => body@,
    }
}

/// A fresh record, created at `now`.
pub open spec fn fresh_record(
    id: Seq<char>,
    kind: InteractionKind,
    sender: Option<Seq<char>>,
    targets: Seq<Seq<char>>,
    status: InteractionStatus,
    policy: InteractionTriggerPolicy,
    body: Seq<char>,
    parent: Option<Seq<char>>,
    now: Seq<char>,
    completed: bool,
) -> RecordView {
    RecordView {
        id,
        kind,
        sender_session_id: sender,
        target_session_ids: targets,
        status,
        trigger_policy: policy,
        body,
        parent_interaction_id: parent,
        created_at: now,
        updated_at: now,
        completed_at: if completed { Some(now) } else { None },
        payload: None,
    }
}

fn build_record(
    id: String,
    kind: InteractionKind,
    sender: Option<String>,
    targets: Vec<String>,
    status: InteractionStatus,
    policy: InteractionTriggerPolicy,
    body: InteractionBodyRef,
    parent: Option<String>,
    now: &String,
    completed: bool,
) -> (r: InteractionRecord)
    ensures
        r@ == fresh_record(id@, kind, opt_view(sender), strings_view(targets@), status, policy, body_view(body),
            opt_view(parent), now@, completed),
{
    InteractionRecord {
        id,
        kind,
        sender_session_id: sender,
        target_session_ids: targets,
        status,
        trigger_policy: policy,
        body_ref: body,
        parent_interaction_id: parent,
        created_at: copy_string(now),
        updated_at: copy_string(now),
        completed_at: if completed { Some(copy_string(now)) } else { None },
        payload: None,
    }
}

/// The transport status a delivery state moves an outbound message to.
pub open spec fn message_status_spec(state: Seq<char>) -> Option<InteractionStatus> {
    if state == "queued"@ {
        Some(InteractionStatus::Queued)
    } else if state == "submit_started"@ || state == "submit_sent_unconfirmed"@ {
        Some(InteractionStatus::Delivering)
    } else if state == "submitted"@ || state == "submit_sent_unverified"@ || state == "provider_applied"@
        || state == "provider_accepted"@ || state == "approval_submitted"@ {
        Some(InteractionStatus::Delivered)
    } else if state == "failed"@ {
        Some(InteractionStatus::Failed)
    } else {
        None
    }
}

/// The transport status a delivery state moves an outbound message to.
pub fn message_status_for_delivery_state(delivery_state: &str) -> (r: Option<InteractionStatus>)
    ensures
        r == message_status_spec(delivery_state@),
{
    if str_eq(delivery_state, "queued") {
        Some(InteractionStatus::Queued)
    } else if str_eq(delivery_state, "submit_started") || str_eq(delivery_state, "submit_sent_unconfirmed") {
        Some(InteractionStatus::Delivering)
    } else if str_eq(delivery_state, "submitted") || str_eq(delivery_state, "submit_sent_unverified")
        || str_eq(delivery_state, "provider_applied") || str_eq(delivery_state, "provider_accepted")
        || str_eq(delivery_state, "approval_submitted") {
        Some(InteractionStatus::Delivered)
    } else if str_eq(delivery_state, "failed") {
        Some(InteractionStatus::Failed)
    } else {
        None
    }
}

/// A message's transport status follows what its delivery reports: a prompt
/// reported submitted, sent unverified, applied or accepted by the provider,
/// or an approval submitted, is delivered; one whose submission started, or
/// whose submit key went out unconfirmed, is still delivering; a queued one
/// is queued and a failed one failed; any other report moves nothing.
pub proof fn law_delivery_reports_set_the_transport_status(state: Seq<char>)
    ensures
        state == "submitted"@ || state == "submit_sent_unverified"@ || state == "provider_applied"@
            || state == "provider_accepted"@ || state == "approval_submitted"@
            ==> message_status_spec(state) == Some(InteractionStatus::Delivered),
        state == "submit_started"@ || state == "submit_sent_unconfirmed"@
            ==> message_status_spec(state) == Some(InteractionStatus::Delivering),
        state == "queued"@ ==> message_status_spec(state) == Some(InteractionStatus::Queued),
        state == "failed"@ ==> message_status_spec(state) == Some(InteractionStatus::Failed),
        !(state == "submitted"@ || state == "submit_sent_unverified"@ || state == "provider_applied"@
            || state == "provider_accepted"@ || state == "approval_submitted"@ || state == "submit_started"@
            || state == "submit_sent_unconfirmed"@ || state == "queued"@ || state == "failed"@)
            ==> message_status_spec(state) is None,
{
    reveal_strlit("queued");
    reveal_strlit("submit_started");
    reveal_strlit("submit_sent_unconfirmed");
    reveal_strlit("submitted");
    reveal_strlit("submit_sent_unverified");
    reveal_strlit("provider_applied");
    reveal_strlit("provider_accepted");
    reveal_strlit("approval_submitted");
    reveal_strlit("failed");
    assert("failed"@[0] != "queued"@[0]);
    assert("queued"@.len() == 6 && "failed"@.len() == 6);
    assert("submit_started"@.len() == 14 && "submit_sent_unconfirmed"@.len() == 23);
    assert("submitted"@.len() == 9 && "submit_sent_unverified"@.len() == 22);
    assert("provider_applied"@.len() == 16 && "provider_accepted"@.len() == 17);
    assert("approval_submitted"@.len() == 18);
}

/// What a finished terminal delivery reports never marks its message
/// delivered or failed by itself: a sent submit key leaves the message
/// delivering, and an empty prompt moves nothing.
pub proof fn law_a_sent_prompt_is_delivering_until_confirmed(
    plan: crate::delivery::TerminalPayloadPlan,
    stage: crate::delivery::DeliveryStage,
    event: crate::delivery::DeliveryEvent,
    next: crate::delivery::DeliveryStage,
    action: crate::delivery::DeliveryAction,
)
    requires
        crate::delivery::step_outcome(plan, stage, event, next, action),
        action matches crate::delivery::DeliveryAction::Finish(Ok(_)),
    ensures
        action matches crate::delivery::DeliveryAction::Finish(Ok(o)) && (
            (stage == crate::delivery::DeliveryStage::SubmitSending
                && message_status_spec(o.delivery_state@) == Some(InteractionStatus::Delivering))
            || (stage == crate::delivery::DeliveryStage::Planned && message_status_spec(o.delivery_state@) is None)),
{
    reveal_strlit("empty");
    reveal_strlit("submit_sent_unconfirmed");
    assert(crate::delivery::DELIVERY_STATE_SUBMIT_SENT_UNCONFIRMED@ == "submit_sent_unconfirmed"@);
    if let crate::delivery::DeliveryAction::Finish(Ok(o)) = action {
        law_delivery_reports_set_the_transport_status(o.delivery_state@);
        assert("empty"@.len() == 5);
        assert(stage == crate::delivery::DeliveryStage::Planned || stage == crate::delivery::DeliveryStage::SubmitSending);
        if stage == crate::delivery::DeliveryStage::Planned {
            assert(o.delivery_state@ == "empty"@);
            assert(o.delivery_state@.len() == 5);
            reveal_strlit("queued");
            reveal_strlit("failed");
            reveal_strlit("submit_started");
            reveal_strlit("submitted");
            reveal_strlit("submit_sent_unverified");
            reveal_strlit("provider_applied");
            reveal_strlit("provider_accepted");
            reveal_strlit("approval_submitted");
            assert("queued"@.len() == 6 && "failed"@.len() == 6);
            assert("submit_started"@.len() == 14 && "submit_sent_unconfirmed"@.len() == 23);
            assert("submitted"@.len() == 9 && "submit_sent_unverified"@.len() == 22);
            assert("provider_applied"@.len() == 16 && "provider_accepted"@.len() == 17);
            assert("approval_submitted"@.len() == 18);
            assert(message_status_spec(o.delivery_state@) is None);
        } else {
            assert(o.delivery_state@ == "submit_sent_unconfirmed"@);
            assert(message_status_spec(o.delivery_state@) == Some(InteractionStatus::Delivering));
        }
    }
}

/// A message moved to `status` at `now`: a terminal transport outcome
/// records its completion time, any other status clears it.
pub open spec fn with_message_status(r: RecordView, status: InteractionStatus, now: Seq<char>) -> RecordView {
    RecordView {
        status,
        updated_at: now,
        completed_at: if status == InteractionStatus::Delivered || status == InteractionStatus::Failed { Some(now) } else { None },
        ..r
    }
}

/// A record finished at `now` with `status`.
pub open spec fn finished(r: RecordView, status: InteractionStatus, now: Seq<char>) -> RecordView {
    RecordView { status, updated_at: now, completed_at: Some(now), ..r }
}

fn prefixed(prefix: &str, detail: &str) -> (r: String)
    ensures
        r@ == prefix@ + detail@,
{
    let mut out: Vec<char> = Vec::new();
    push_str_chars(&mut out, prefix);
    push_str_chars(&mut out, detail);
    into_string(out)
}

// ---------------------------------------------------------------------------
// Provider input readiness

#[derive(Debug, Clone, Copy, PartialEq, Eq, Structural)]
pub enum ProviderInputReadiness {
    Booting,
    Ready,
    Busy,
    ActionRequired,
}

/// What showed a provider ready for input.
#[derive(Debug, Clone, Copy, PartialEq, Eq, Structural)]
pub enum ProviderReadyEvidence {
    PromptDetected,
    TitleDetected,
    ManualStatus,
    ProviderEvent,
}

/// A provider's input readiness as last observed.
#[derive(Debug, Clone, PartialEq, Eq)]
pub struct ProviderInputState {
    pub session_id: String,
    pub generation: u64,
    pub state: ProviderInputReadiness,
    pub ready_evidence: Option<ProviderReadyEvidence>,
    pub observed_at: String,
}

pub struct InputView {
    pub session_id: Seq<char>,
    pub generation: u64,
    pub state: ProviderInputReadiness,
    pub ready_evidence: Option<ProviderReadyEvidence>,
    pub observed_at: Seq<char>,
}

impl View for ProviderInputState {
    type V = InputView;

    open spec fn view(&self) -> InputView {
        InputView {
            session_id: self.session_id@,
            generation: self.generation,
            state: self.state,
            ready_evidence: self.ready_evidence,
            observed_at: self.observed_at@,
        }
    }
}

pub open spec fn input_view(i: Option<ProviderInputState>) -> Option<InputView> {
    match i {
        Some(x) => Some(x@),
        None => None,
    }
}

fn copy_input(i: &ProviderInputState) -> (c: ProviderInputState)
    ensures
        c@ == i@,
{
    ProviderInputState {
        session_id: copy_string(&i.session_id),
        generation: i.generation,
        state: i.state,
        ready_evidence: i.ready_evidence,
        observed_at: copy_string(&i.observed_at),
    }
}

/// Everything kept per provider session: its current input generation, the
/// highest generation it ever started, the last status sequence observed,
/// and its input state.
#[derive(Debug)]
struct ProviderTrack {
    session_id: String,
    generation: Option<u64>,
    tombstone: Option<u64>,
    observation: Option<u64>,
    input: Option<ProviderInputState>,
}

pub struct TrackView {
    pub session_id: Seq<char>,
    pub generation: Option<u64>,
    pub tombstone: Option<u64>,
    pub observation: Option<u64>,
    pub input: Option<InputView>,
}

impl View for ProviderTrack {
    type V = TrackView;

    closed spec fn view(&self) -> TrackView {
        TrackView {
            session_id: self.session_id@,
            generation: self.generation,
            tombstone: self.tombstone,
            observation: self.observation,
            input: input_view(self.input),
        }
    }
}

pub open spec fn track_key() -> spec_fn(TrackView) -> Seq<char> {
    |t: TrackView| t.session_id
}

/// A session nothing is known of.
pub open spec fn empty_track(session: Seq<char>) -> TrackView {
    TrackView { session_id: session, generation: None, tombstone: None, observation: None, input: None }
}

/// What is known of a session's provider.
pub open spec fn track_of(tracks: Seq<TrackView>, session: Seq<char>) -> TrackView {
    if has_key(tracks, track_key(), session) { entry_for(tracks, track_key(), session) } else { empty_track(session) }
}

/// A fresh observation of a provider's input.
pub open spec fn input_spec(session: Seq<char>, generation: u64, state: ProviderInputReadiness, evidence: Option<ProviderReadyEvidence>, now: Seq<char>) -> InputView {
    InputView { session_id: session, generation, state, ready_evidence: evidence, observed_at: now }
}

/// An observation that leaves the current state in place: an older
/// generation; the same state and evidence again; a provider event's
/// readiness not restated without evidence; or a prompt or title reading
/// ready while the provider said it was busy or needed action.
pub open spec fn keep_existing_spec(existing: InputView, generation: u64, next_state: ProviderInputReadiness, next_evidence: Option<ProviderReadyEvidence>) -> bool {
    if generation < existing.generation {
        true
    } else if generation > existing.generation {
        false
    } else if existing.state == next_state && existing.ready_evidence == next_evidence {
        true
    } else if existing.state == next_state && existing.ready_evidence == Some(ProviderReadyEvidence::ProviderEvent) && next_evidence is None {
        true
    } else {
        next_state == ProviderInputReadiness::Ready && next_evidence != Some(ProviderReadyEvidence::ProviderEvent)
            && (existing.state == ProviderInputReadiness::Busy || existing.state == ProviderInputReadiness::ActionRequired)
    }
}

pub fn keep_existing_provider_input_state(
    existing: &ProviderInputState,
    generation: u64,
    next_state: ProviderInputReadiness,
    next_evidence: Option<ProviderReadyEvidence>,
) -> (r: bool)
    ensures
        r == keep_existing_spec(existing@, generation, next_state, next_evidence),
{
    if generation < existing.generation {
        return true;
    }
    if generation > existing.generation {
        return false;
    }
    if existing.state == next_state && existing.ready_evidence == next_evidence {
        return true;
    }
    if existing.state == next_state && existing.ready_evidence == Some(ProviderReadyEvidence::ProviderEvent) && next_evidence.is_none() {
        return true;
    }
    next_state == ProviderInputReadiness::Ready && next_evidence != Some(ProviderReadyEvidence::ProviderEvent)
        && (existing.state == ProviderInputReadiness::Busy || existing.state == ProviderInputReadiness::ActionRequired)
}

/// Whether an observation of generation `generation` is current, and the
/// session's generation and high watermark after it is judged.
pub open spec fn judge_generation(t: TrackView, generation: u64) -> (bool, Option<u64>, Option<u64>) {
    let hw = match t.tombstone { Some(x) => x, None => 0 };
    if t.generation == Some(generation) {
        (true, t.generation, t.tombstone)
    } else if t.generation is None && hw == 0 && generation == 0 {
        (true, Some(0u64), t.tombstone)
    } else if generation > hw {
        (true, Some(generation), Some(generation))
    } else {
        (false, t.generation, t.tombstone)
    }
}

/// Recording an observation for a session not deleted: the session after it,
/// and the state reported.
pub open spec fn record_input_spec(t: TrackView, generation: u64, state: ProviderInputReadiness, evidence: Option<ProviderReadyEvidence>, now: Seq<char>) -> (TrackView, InputView) {
    let (current, g, hw) = judge_generation(t, generation);
    let judged = TrackView { generation: g, tombstone: hw, ..t };
    let fresh = input_spec(t.session_id, generation, state, evidence, now);
    if !current {
        (judged, match t.input { Some(i) => i, None => fresh })
    } else if t.input is Some && keep_existing_spec(t.input->0, generation, state, evidence) {
        (judged, t.input->0)
    } else {
        (TrackView { input: Some(fresh), ..judged }, fresh)
    }
}

pub open spec fn other_than(session: Seq<char>) -> spec_fn(Seq<char>) -> bool {
    |x: Seq<char>| x != session
}

/// A readiness snapshot taken before a replacement, to restore if it fails.
#[derive(Debug, Clone, PartialEq, Eq)]
pub struct ProviderInputRollbackSnapshot {
    pub generation: Option<u64>,
    pub status_observation: Option<u64>,
    pub state: Option<ProviderInputState>,
}

/// What startup does with a recovery marker.
#[derive(Debug, Clone, Copy, PartialEq, Eq, Structural)]
pub enum RecoveryStep {
    /// Drop the marker: there is nothing left to restore.
    Resolve,
    /// Keep the marker for a later retry.
    Retain,
    /// Restore the snapshot in memory and persist it; then drop the marker.
    Apply,
}

/// What restoring a snapshot records first, so a crash midway recovers.
#[derive(Debug, Clone, PartialEq, Eq)]
pub struct ProviderInputRollbackRecovery {
    pub snapshot: ProviderInputRollbackSnapshot,
    pub discarded_generation: Option<u64>,
}

fn max_u64(a: u64, b: u64) -> (r: u64)
    ensures
        r == if a >= b { a } else { b },
{
    if a >= b { a } else { b }
}

pub open spec fn unwrap_or_zero(o: Option<u64>) -> u64 {
    match o { Some(x) => x, None => 0 }
}

pub open spec fn max_spec(a: u64, b: u64) -> u64 {
    if a >= b { a } else { b }
}

/// The session after a recovery is applied: the high watermark covers the
/// discarded and the restored generations, and the snapshot's generation,
/// state and (when asked) status sequence come back.
pub open spec fn recovered_spec(t: TrackView, recovery: ProviderInputRollbackRecovery, restore_observation: bool) -> TrackView {
    let hw = max_spec(max_spec(unwrap_or_zero(t.tombstone), unwrap_or_zero(recovery.discarded_generation)),
        unwrap_or_zero(recovery.snapshot.generation));
    TrackView {
        session_id: t.session_id,
        generation: recovery.snapshot.generation,
        tombstone: if hw > 0 { Some(hw) } else { t.tombstone },
        observation: if restore_observation { recovery.snapshot.status_observation } else { None },
        input: input_view(recovery.snapshot.state),
    }
}

// ---------------------------------------------------------------------------
// The store

/// How a task's answer ended.
#[derive(Debug, Clone, Copy, PartialEq, Eq, Structural)]
pub enum ReplyStatus {
    Done,
    Blocked,
    Failed,
}

/// Replies are keyed by the task they answer.
pub open spec fn reply_key() -> spec_fn(StructuredReply) -> Seq<char> {
    |r: StructuredReply| r.request_id@
}

/// The answer recorded for a task.
#[derive(Debug, Clone, PartialEq, Eq)]
pub struct StructuredReply {
    pub request_id: String,
    pub status: ReplyStatus,
    pub body: String,
    pub target_session_id: String,
    pub source_session_id: Option<String>,
    pub replied_at: String,
}

/// The interactions in memory, the sessions deleted in this process, and the
/// id counter.
#[derive(Debug)]
pub struct InteractionState {
    records: Vec<InteractionRecord>,
    replies: Vec<StructuredReply>,
    deleted_sessions: Vec<String>,
    counter: u64,
    providers: Vec<ProviderTrack>,
}

impl InteractionState {
    pub closed spec fn records(&self) -> Seq<RecordView> {
        records_view(self.records@)
    }

    pub closed spec fn replies(&self) -> Seq<StructuredReply> {
        self.replies@
    }

    pub closed spec fn deleted(&self) -> Seq<Seq<char>> {
        strings_view(self.deleted_sessions@)
    }

    pub closed spec fn counter(&self) -> u64 {
        self.counter
    }

    pub closed spec fn tracks(&self) -> Seq<TrackView> {
        self.providers@.map_values(|t: ProviderTrack| t@)
    }

    /// What the store knows of a session's provider input.
    pub open spec fn provider(&self, session: Seq<char>) -> TrackView {
        track_of(self.tracks(), session)
    }

    /// Record ids are distinct, and so are the tasks the replies answer.
    pub open spec fn wf(&self) -> bool {
        &&& keys_distinct(self.records(), record_key())
        &&& keys_distinct(self.replies(), reply_key())
        &&& keys_distinct(self.tracks(), track_key())
    }

    pub open spec fn is_deleted(&self, session: Seq<char>) -> bool {
        self.deleted().contains(session)
    }

    /// An empty store.
    pub fn new() -> (r: Self)
        ensures
            r.wf(),
            r.records().len() == 0,
            r.replies().len() == 0,
            r.deleted().len() == 0,
            r.counter() == 0,
            r.tracks().len() == 0,
    {
        InteractionState { records: Vec::new(), replies: Vec::new(), deleted_sessions: Vec::new(), counter: 0, providers: Vec::new() }
    }

    fn session_deleted(&self, session: &str) -> (r: bool)
        ensures
            r == self.is_deleted(session@),
    {
        let mut i: usize = 0;
        while i < self.deleted_sessions.len()
            invariant
                i <= self.deleted_sessions@.len(),
                forall|k: int| 0 <= k < i ==> self.deleted_sessions@[k]@ != session@,
            decreases self.deleted_sessions@.len() - i,
        {
            if str_eq(self.deleted_sessions[i].as_str(), session) {
                assert(self.deleted()[i as int] == session@);
                return true;
            }
            i = i + 1;
        }
        assert forall|k: int| 0 <= k < self.deleted().len() implies self.deleted()[k] != session@ by {
            assert(self.deleted()[k] == self.deleted_sessions@[k]@);
        }
        false
    }

    fn find(&self, id: &str) -> (r: Option<usize>)
        ensures
            match r {
                Some(i) => i < self.records().len() && self.records()[i as int].id == id@,
                None => !has_record(self.records(), id@),
            },
    {
        let mut i: usize = 0;
        while i < self.records.len()
            invariant
                i <= self.records@.len(),
                forall|k: int| 0 <= k < i ==> self.records@[k].id@ != id@,
            decreases self.records@.len() - i,
        {
            if str_eq(self.records[i].id.as_str(), id) {
                return Some(i);
            }
            i = i + 1;
        }
        assert forall|k: int| 0 <= k < self.records().len() implies (#[trigger] self.records()[k]).id != id@ by {
            assert(self.records()[k] == self.records@[k]@);
        }
        assert(!has_record(self.records(), id@));
        None
    }

    /// Stores a record, replacing the one with its id.
    pub fn commit_record(&mut self, record: InteractionRecord)
        requires
            old(self).wf(),
        ensures
            final(self).wf(),
            final(self).records() == upsert_by(old(self).records(), record_key(), record@),
            final(self).replies() == old(self).replies(),
            final(self).deleted() == old(self).deleted(),
            final(self).tracks() == old(self).tracks(),
            final(self).counter() == old(self).counter(),
    {
        let ghost before = self.records();
        proof { lemma_upsert_by(before, record_key(), record@); }
        match self.find(record.id.as_str()) {
            Some(i) => {
                proof {
                    assert(record_key()(before[i as int]) == record@.id);
                    let k = choose|k: int| 0 <= k < before.len() && record_key()(#[trigger] before[k]) == record_key()(record@);
                    assert(k == i as int);
                }
                let ghost rv = record@;
                self.records.set(i, record);
                assert(self.records() =~= before.update(i as int, rv));
            },
            None => {
                let ghost rv = record@;
                self.records.push(record);
                assert(self.records() =~= before.push(rv));
            },
        }
    }

    /// The record with the id.
    pub fn interaction(&self, id: &str) -> (r: Option<InteractionRecord>)
        requires
            self.wf(),
        ensures
            has_record(self.records(), id@) ==> r is Some && r->0@ == record_with(self.records(), id@),
            !has_record(self.records(), id@) ==> r is None,
    {
        match self.find(id) {
            Some(i) => {
                proof {
                    assert(record_key()(self.records()[i as int]) == id@);
                    let k = choose|k: int| 0 <= k < self.records().len() && record_key()(#[trigger] self.records()[k]) == id@;
                    assert(k == i as int);
                }
                Some(copy_record(&self.records[i]))
            },
            None => None,
        }
    }

    /// Issues the next interaction identity from the clock.
    pub fn new_interaction_id(&mut self) -> (r: String)
        ensures
            exists|millis: i64| r@ == interaction_id_text(millis as int, old(self).counter() as nat),
            final(self).counter() == old(self).counter().wrapping_add(1),
            final(self).records() == old(self).records(),
            final(self).replies() == old(self).replies(),
            final(self).deleted() == old(self).deleted(),
            final(self).tracks() == old(self).tracks(),
    {
        let millis = clock_millis();
        let counter = self.counter;
        self.counter = self.counter.wrapping_add(1);
        let r = interaction_id(millis, counter);
        assert(r@ == interaction_id_text(millis as int, old(self).counter() as nat));
        r
    }

    /// Issues the next delivery-attempt identity from the clock.
    pub fn new_delivery_attempt_id(&mut self) -> (r: String)
        ensures
            exists|millis: i64| r@ == attempt_id_text(millis as int, old(self).counter() as nat),
            final(self).counter() == old(self).counter().wrapping_add(1),
            final(self).records() == old(self).records(),
            final(self).replies() == old(self).replies(),
            final(self).deleted() == old(self).deleted(),
            final(self).tracks() == old(self).tracks(),
    {
        let millis = clock_millis();
        let counter = self.counter;
        self.counter = self.counter.wrapping_add(1);
        let r = attempt_id(millis, counter);
        assert(r@ == attempt_id_text(millis as int, old(self).counter() as nat));
        r
    }
}

/// What answering a task records.
#[derive(Debug)]
pub struct TaskReply {
    /// The answer, kept for the task's sender.
    pub reply: StructuredReply,
    /// The task, now finished.
    pub task: InteractionRecord,
    /// The reply interaction addressed to the task's sender.
    pub reply_record: InteractionRecord,
}

impl InteractionState {
    /// Records a task for `target`; a task for a session deleted in this
    /// process is rejected as failed and neither stored nor to be written.
    /// The flag says whether the record is to be written durably.
    pub fn create_task_with_id(
        &mut self,
        id: String,
        sender_session_id: Option<String>,
        target_session_id: String,
        body_ref: InteractionBodyRef,
        now: String,
    ) -> (r: (InteractionRecord, bool))
        requires
            old(self).wf(),
        ensures
            final(self).wf(),
            r.0@ == fresh_record(id@, InteractionKind::Task, opt_view(sender_session_id), seq![target_session_id@],
                if old(self).is_deleted(target_session_id@) { InteractionStatus::Failed } else { InteractionStatus::AwaitingReply },
                InteractionTriggerPolicy::ReplyRequired, body_view(body_ref), None, now@,
                old(self).is_deleted(target_session_id@)),
            r.1 == !old(self).is_deleted(target_session_id@),
            final(self).records() == if r.1 { upsert_by(old(self).records(), record_key(), r.0@) } else { old(self).records() },
            final(self).replies() == old(self).replies(),
            final(self).deleted() == old(self).deleted(),
            final(self).tracks() == old(self).tracks(),
            final(self).counter() == old(self).counter(),
    {
        let deleted = self.session_deleted(target_session_id.as_str());
        let ghost target_view = target_session_id@;
        let mut targets: Vec<String> = Vec::new();
        targets.push(target_session_id);
        proof { assert(strings_view(targets@) =~= seq![target_view]); }
        let status = if deleted { InteractionStatus::Failed } else { InteractionStatus::AwaitingReply };
        let record = build_record(id, InteractionKind::Task, sender_session_id, targets, status,
            InteractionTriggerPolicy::ReplyRequired, body_ref, None, &now, deleted);
        if deleted {
            return (record, false);
        }
        self.commit_record(copy_record(&record));
        (record, true)
    }

    /// Records a task with a fresh identity, stamped now.
    pub fn create_task(&mut self, sender_session_id: Option<String>, target_session_id: String, body_ref: InteractionBodyRef) -> (r: (InteractionRecord, bool))
        requires
            old(self).wf(),
        ensures
            final(self).wf(),
            r.0@.kind == InteractionKind::Task,
            r.0@.sender_session_id == opt_view(sender_session_id),
            r.0@.target_session_ids == seq![target_session_id@],
            r.0@.trigger_policy == InteractionTriggerPolicy::ReplyRequired,
            r.0@.body == body_view(body_ref),
            r.0@.status == if old(self).is_deleted(target_session_id@) { InteractionStatus::Failed } else { InteractionStatus::AwaitingReply },
            r.1 == !old(self).is_deleted(target_session_id@),
            final(self).records() == if r.1 { upsert_by(old(self).records(), record_key(), r.0@) } else { old(self).records() },
            final(self).replies() == old(self).replies(),
            final(self).deleted() == old(self).deleted(),
            final(self).tracks() == old(self).tracks(),
    {
        let id = self.new_interaction_id();
        let now = now_rfc3339_millis();
        self.create_task_with_id(id, sender_session_id, target_session_id, body_ref, now)
    }

    /// Records an outbound message, queued to start a turn in each target.
    pub fn create_message(
        &mut self,
        id: String,
        sender_session_id: Option<String>,
        target_session_ids: Vec<String>,
        body_ref: InteractionBodyRef,
        now: String,
    ) -> (r: InteractionRecord)
        requires
            old(self).wf(),
        ensures
            final(self).wf(),
            r@ == fresh_record(id@, InteractionKind::Message, opt_view(sender_session_id), strings_view(target_session_ids@),
                InteractionStatus::Queued, InteractionTriggerPolicy::StartTurn, body_view(body_ref), None, now@, false),
            final(self).records() == upsert_by(old(self).records(), record_key(), r@),
            final(self).replies() == old(self).replies(),
            final(self).deleted() == old(self).deleted(),
            final(self).tracks() == old(self).tracks(),
            final(self).counter() == old(self).counter(),
    {
        let record = build_record(id, InteractionKind::Message, sender_session_id, target_session_ids,
            InteractionStatus::Queued, InteractionTriggerPolicy::StartTurn, body_ref, None, &now, false);
        self.commit_record(copy_record(&record));
        record
    }

    /// The message record to write before it is committed, or why a message
    /// may not be sent: no message goes to a session deleted in this process.
    pub fn create_message_durable(
        &self,
        id: String,
        sender_session_id: Option<String>,
        target_session_ids: Vec<String>,
        body_ref: InteractionBodyRef,
        now: String,
    ) -> (r: Result<InteractionRecord, String>)
        ensures
            (exists|i: int| 0 <= i < target_session_ids@.len() && self.is_deleted(#[trigger] target_session_ids@[i]@))
                ==> r is Err && exists|i: int| 0 <= i < target_session_ids@.len() && self.is_deleted(#[trigger] target_session_ids@[i]@)
                    && (forall|j: int| 0 <= j < i ==> !self.is_deleted(#[trigger] target_session_ids@[j]@))
                    && r->Err_0@ == "agent has been deleted: "@ + target_session_ids@[i]@,
            !(exists|i: int| 0 <= i < target_session_ids@.len() && self.is_deleted(#[trigger] target_session_ids@[i]@))
                ==> r is Ok && r->Ok_0@ == fresh_record(id@, InteractionKind::Message, opt_view(sender_session_id),
                    strings_view(target_session_ids@), InteractionStatus::Queued, InteractionTriggerPolicy::StartTurn,
                    body_view(body_ref), None, now@, false),
    {
        let mut i: usize = 0;
        while i < target_session_ids.len()
            invariant
                i <= target_session_ids@.len(),
                forall|j: int| 0 <= j < i ==> !self.is_deleted(#[trigger] target_session_ids@[j]@),
            decreases target_session_ids@.len() - i,
        {
            if self.session_deleted(target_session_ids[i].as_str()) {
                return Err(prefixed("agent has been deleted: ", target_session_ids[i].as_str()));
            }
            i = i + 1;
        }
        Ok(build_record(id, InteractionKind::Message, sender_session_id, target_session_ids,
            InteractionStatus::Queued, InteractionTriggerPolicy::StartTurn, body_ref, None, &now, false))
    }

    /// The message moved to `status` at `now`, to write and commit, and
    /// whether it changed: a message already in that status is returned as it
    /// is.
    pub fn update_message_status_durable(&self, interaction_id: &str, status: InteractionStatus, now: String) -> (r: Result<(InteractionRecord, bool), String>)
        requires
            self.wf(),
        ensures
            !has_record(self.records(), interaction_id@) ==> r is Err
                && r->Err_0@ == "message interaction not found: "@ + interaction_id@,
            has_record(self.records(), interaction_id@) ==> {
                let current = record_with(self.records(), interaction_id@);
                if current.kind != InteractionKind::Message {
                    r is Err && r->Err_0@ == "interaction is not a message: "@ + interaction_id@
                } else if current.status == status {
                    r is Ok && r->Ok_0.0@ == current && !r->Ok_0.1
                } else {
                    r is Ok && r->Ok_0.0@ == with_message_status(current, status, now@) && r->Ok_0.1
                }
            },
    {
        let i = match self.find(interaction_id) {
            Some(i) => i,
            None => return Err(prefixed("message interaction not found: ", interaction_id)),
        };
        proof {
            assert(record_key()(self.records()[i as int]) == interaction_id@);
            let k = choose|k: int| 0 <= k < self.records().len() && record_key()(#[trigger] self.records()[k]) == interaction_id@;
            assert(k == i as int);
        }
        let current = &self.records[i];
        if current.kind != InteractionKind::Message {
            return Err(prefixed("interaction is not a message: ", interaction_id));
        }
        if current.status == status {
            return Ok((copy_record(current), false));
        }
        let mut updated = copy_record(current);
        updated.status = status;
        updated.updated_at = copy_string(&now);
        updated.completed_at = if status == InteractionStatus::Delivered || status == InteractionStatus::Failed {
            Some(now)
        } else {
            None
        };
        Ok((updated, true))
    }

    /// Whether a delivery attempt for `target` may be written: attempts for a
    /// session deleted in this process are not.
    pub fn may_record_delivery_attempt(&self, target_session_id: &str) -> (r: bool)
        ensures
            r == !self.is_deleted(target_session_id@),
    {
        !self.session_deleted(target_session_id)
    }

    /// The message update a durable delivery attempt implies, to write and
    /// commit after the attempt: none when the delivery state names no
    /// transport status, the interaction is no message, or it is already there.
    pub fn message_update_for_delivery(&self, interaction_id: &str, delivery_state: &str, now: String) -> (r: Result<Option<InteractionRecord>, String>)
        requires
            self.wf(),
        ensures
            ({
                let target = message_status_spec(delivery_state@);
                if target is None || !has_record(self.records(), interaction_id@)
                    || record_with(self.records(), interaction_id@).kind != InteractionKind::Message
                    || record_with(self.records(), interaction_id@).status == target->0 {
                    r == Ok::<Option<InteractionRecord>, String>(None)
                } else {
                    r is Ok && r->Ok_0 is Some
                        && r->Ok_0->0@ == with_message_status(record_with(self.records(), interaction_id@), target->0, now@)
                }
            }),
    {
        let status = match message_status_for_delivery_state(delivery_state) {
            Some(s) => s,
            None => return Ok(None),
        };
        match self.find(interaction_id) {
            Some(i) => {
                proof {
                    assert(record_key()(self.records()[i as int]) == interaction_id@);
                    let k = choose|k: int| 0 <= k < self.records().len() && record_key()(#[trigger] self.records()[k]) == interaction_id@;
                    assert(k == i as int);
                }
                if self.records[i].kind != InteractionKind::Message {
                    return Ok(None);
                }
            },
            None => return Ok(None),
        }
        match self.update_message_status_durable(interaction_id, status, now) {
            Ok((record, true)) => Ok(Some(record)),
            Ok((_, false)) => Ok(None),
            Err(e) => Err(e),
        }
    }
}

fn copy_reply(r: &StructuredReply) -> (c: StructuredReply)
    ensures
        c == *r,
{
    StructuredReply {
        request_id: copy_string(&r.request_id),
        status: r.status,
        body: copy_string(&r.body),
        target_session_id: copy_string(&r.target_session_id),
        source_session_id: copy_opt(&r.source_session_id),
        replied_at: copy_string(&r.replied_at),
    }
}

/// The first target of a record, the session a reply is recorded for.
pub open spec fn first_target(r: RecordView) -> Seq<char> {
    r.target_session_ids[0]
}

/// A reply interaction answering `task` from `source`.
pub open spec fn reply_record_spec(task: RecordView, reply_id: Seq<char>, source: Option<Seq<char>>, body: Seq<char>, now: Seq<char>) -> RecordView {
    fresh_record(
        reply_id,
        InteractionKind::Reply,
        source,
        match task.sender_session_id { Some(s) => seq![s], None => Seq::empty() },
        InteractionStatus::Completed,
        InteractionTriggerPolicy::NotifyOnly,
        body,
        Some(task.id),
        now,
        true,
    )
}

/// What an accepted answer does to the store.
pub open spec fn answered(
    before: Seq<RecordView>,
    replies_before: Seq<StructuredReply>,
    after: Seq<RecordView>,
    replies_after: Seq<StructuredReply>,
    r: TaskReply,
    task: RecordView,
    status: InteractionStatus,
    reply_id: Seq<char>,
    source: Option<Seq<char>>,
    body: Seq<char>,
    now: Seq<char>,
) -> bool {
    &&& r.task@ == finished(task, status, now)
    &&& r.reply_record@ == reply_record_spec(task, reply_id, source, body, now)
    &&& after == upsert_by(upsert_by(before, record_key(), r.task@), record_key(), r.reply_record@)
    &&& replies_after == upsert_by(replies_before, reply_key(), r.reply)
}

/// The answer kept for `task`.
pub open spec fn reply_fields(reply: StructuredReply, task: RecordView, status: ReplyStatus, target: Seq<char>, source: Option<Seq<char>>, body: Seq<char>, now: Seq<char>) -> bool {
    &&& reply.request_id@ == task.id
    &&& reply.status == status
    &&& reply.body@ == body
    &&& reply.target_session_id@ == target
    &&& opt_view(reply.source_session_id) == source
    &&& reply.replied_at@ == now
}

impl InteractionState {
    fn find_reply(&self, request_id: &str) -> (r: Option<usize>)
        ensures
            match r {
                Some(i) => i < self.replies().len() && self.replies()[i as int].request_id@ == request_id@,
                None => !has_key(self.replies(), reply_key(), request_id@),
            },
    {
        let mut i: usize = 0;
        while i < self.replies.len()
            invariant
                i <= self.replies@.len(),
                forall|k: int| 0 <= k < i ==> self.replies@[k].request_id@ != request_id@,
            decreases self.replies@.len() - i,
        {
            if str_eq(self.replies[i].request_id.as_str(), request_id) {
                return Some(i);
            }
            i = i + 1;
        }
        assert(!has_key(self.replies(), reply_key(), request_id@));
        None
    }

    fn commit_reply(&mut self, reply: StructuredReply)
        requires
            old(self).wf(),
        ensures
            final(self).wf(),
            final(self).replies() == upsert_by(old(self).replies(), reply_key(), reply),
            final(self).records() == old(self).records(),
            final(self).deleted() == old(self).deleted(),
            final(self).tracks() == old(self).tracks(),
            final(self).counter() == old(self).counter(),
    {
        let ghost before = self.replies();
        proof { lemma_upsert_by(before, reply_key(), reply); }
        match self.find_reply(reply.request_id.as_str()) {
            Some(i) => {
                proof {
                    assert(reply_key()(before[i as int]) == reply.request_id@);
                    let k = choose|k: int| 0 <= k < before.len() && reply_key()(#[trigger] before[k]) == reply_key()(reply);
                    assert(k == i as int);
                }
                self.replies.set(i, reply);
            },
            None => {
                self.replies.push(reply);
            },
        }
    }

    /// The answer recorded for a task.
    pub fn structured_reply(&self, task_id: &str) -> (r: Option<StructuredReply>)
        requires
            self.wf(),
        ensures
            has_key(self.replies(), reply_key(), task_id@) ==> r == Some(entry_for(self.replies(), reply_key(), task_id@)),
            !has_key(self.replies(), reply_key(), task_id@) ==> r is None,
    {
        match self.find_reply(task_id) {
            Some(i) => {
                proof {
                    assert(reply_key()(self.replies()[i as int]) == task_id@);
                    let k = choose|k: int| 0 <= k < self.replies().len() && reply_key()(#[trigger] self.replies()[k]) == task_id@;
                    assert(k == i as int);
                }
                Some(copy_reply(&self.replies[i]))
            },
            None => None,
        }
    }

    fn record_answer(
        &mut self,
        i: usize,
        task_status: InteractionStatus,
        reply: StructuredReply,
        reply_id: String,
        reply_sender: Option<String>,
        body: &str,
        now: &String,
    ) -> (r: TaskReply)
        requires
            old(self).wf(),
            i < old(self).records().len(),
        ensures
            final(self).wf(),
            r.reply == reply,
            answered(old(self).records(), old(self).replies(), final(self).records(), final(self).replies(), r,
                old(self).records()[i as int], task_status, reply_id@, opt_view(reply_sender), body@, now@),
            final(self).deleted() == old(self).deleted(),
            final(self).tracks() == old(self).tracks(),
            final(self).counter() == old(self).counter(),
    {
        let ghost task = self.records()[i as int];
        let mut task_record = copy_record(&self.records[i]);
        task_record.status = task_status;
        task_record.updated_at = copy_string(now);
        task_record.completed_at = Some(copy_string(now));
        assert(task_record@ == finished(task, task_status, now@));
        let reply_targets: Vec<String> = match &self.records[i].sender_session_id {
            Some(sender) => {
                let mut v: Vec<String> = Vec::new();
                v.push(copy_string(sender));
                proof { assert(strings_view(v@) =~= seq![sender@]); }
                v
            },
            None => {
                let v: Vec<String> = Vec::new();
                proof { assert(strings_view(v@) =~= Seq::<Seq<char>>::empty()); }
                v
            },
        };
        let reply_record = build_record(reply_id, InteractionKind::Reply, reply_sender, reply_targets,
            InteractionStatus::Completed, InteractionTriggerPolicy::NotifyOnly, InteractionBodyRef::Inline { body: owned(body) },
            Some(copy_string(&self.records[i].id)), now, true);
        self.commit_record(copy_record(&task_record));
        self.commit_record(copy_record(&reply_record));
        self.commit_reply(copy_reply(&reply));
        TaskReply { reply, task: task_record, reply_record }
    }

    /// Answers a task from one of its targets: the task completes once; the
    /// answer is kept for its sender and addressed to it as a reply.
    pub fn complete_task_with_reply(
        &mut self,
        task_id: &str,
        source_session_id: Option<&str>,
        status: ReplyStatus,
        body: &str,
        reply_id: String,
        now: String,
    ) -> (r: Result<TaskReply, &'static str>)
        requires
            old(self).wf(),
        ensures
            final(self).wf(),
            final(self).deleted() == old(self).deleted(),
            final(self).tracks() == old(self).tracks(),
            final(self).counter() == old(self).counter(),
            r is Err ==> final(self).records() == old(self).records() && final(self).replies() == old(self).replies(),
            !has_record(old(self).records(), task_id@) ==> r == Err::<TaskReply, &'static str>("not_found"),
            has_record(old(self).records(), task_id@) ==> {
                let task = record_with(old(self).records(), task_id@);
                if task.status != InteractionStatus::AwaitingReply {
                    r == Err::<TaskReply, &'static str>("duplicate_reply")
                } else if source_session_id is None || trim_spec(source_session_id->0@).len() == 0
                    || !task.target_session_ids.contains(trim_spec(source_session_id->0@)) {
                    r == Err::<TaskReply, &'static str>("unauthorized")
                } else {
                    let source = trim_spec(source_session_id->0@);
                    r is Ok && answered(old(self).records(), old(self).replies(), final(self).records(), final(self).replies(),
                        r->Ok_0, task, InteractionStatus::Completed, reply_id@, Some(source), body@, now@)
                        && reply_fields(r->Ok_0.reply, task, status, first_target(task), Some(source), body@, now@)
                }
            },
    {
        let i = match self.find(task_id) {
            Some(i) => i,
            None => return Err("not_found"),
        };
        proof {
            assert(record_key()(self.records()[i as int]) == task_id@);
            let k = choose|k: int| 0 <= k < self.records().len() && record_key()(#[trigger] self.records()[k]) == task_id@;
            assert(k == i as int);
        }
        if self.records[i].status != InteractionStatus::AwaitingReply {
            return Err("duplicate_reply");
        }
        let source = match source_session_id {
            Some(s) => trimmed_chars(s),
            None => return Err("unauthorized"),
        };
        if source.len() == 0 {
            return Err("unauthorized");
        }
        let source_text = into_string(source);
        let ghost targets = self.records()[i as int].target_session_ids;
        let mut found = false;
        let mut t: usize = 0;
        while t < self.records[i].target_session_ids.len()
            invariant
                i < self.records@.len(),
                targets == strings_view(self.records@[i as int].target_session_ids@),
                t <= targets.len(),
                found == exists|k: int| 0 <= k < t && targets[k] == source_text@,
            decreases targets.len() - t,
        {
            assert(targets[t as int] == self.records@[i as int].target_session_ids@[t as int]@);
            if str_eq(self.records[i].target_session_ids[t].as_str(), source_text.as_str()) {
                found = true;
            }
            t = t + 1;
        }
        if !found {
            return Err("unauthorized");
        }
        assert(targets.len() > 0);
        assert(targets[0] == self.records@[i as int].target_session_ids@[0]@);
        let reply = StructuredReply {
            request_id: owned(task_id),
            status,
            body: owned(body),
            target_session_id: copy_string(&self.records[i].target_session_ids[0]),
            source_session_id: Some(copy_string(&source_text)),
            replied_at: copy_string(&now),
        };
        Ok(self.record_answer(i, InteractionStatus::Completed, reply, reply_id, Some(source_text), body, &now))
    }

    /// Fails a task on behalf of `target`: the task ends failed, and the
    /// failure is kept and addressed to its sender as the task's answer.
    pub fn fail_task_with_reply(
        &mut self,
        task_id: &str,
        target_session_id: &str,
        body: &str,
        reply_id: String,
        now: String,
    ) -> (r: Result<TaskReply, &'static str>)
        requires
            old(self).wf(),
        ensures
            final(self).wf(),
            final(self).deleted() == old(self).deleted(),
            final(self).tracks() == old(self).tracks(),
            final(self).counter() == old(self).counter(),
            r is Err ==> final(self).records() == old(self).records() && final(self).replies() == old(self).replies(),
            !has_record(old(self).records(), task_id@) ==> r == Err::<TaskReply, &'static str>("not_found"),
            has_record(old(self).records(), task_id@) ==> {
                let task = record_with(old(self).records(), task_id@);
                if task.status != InteractionStatus::AwaitingReply {
                    r == Err::<TaskReply, &'static str>("duplicate_reply")
                } else if !task.target_session_ids.contains(target_session_id@) {
                    r == Err::<TaskReply, &'static str>("unauthorized")
                } else {
                    r is Ok && answered(old(self).records(), old(self).replies(), final(self).records(), final(self).replies(),
                        r->Ok_0, task, InteractionStatus::Failed, reply_id@, None, body@, now@)
                        && reply_fields(r->Ok_0.reply, task, ReplyStatus::Failed, target_session_id@, None, body@, now@)
                }
            },
    {
        let i = match self.find(task_id) {
            Some(i) => i,
            None => return Err("not_found"),
        };
        proof {
            assert(record_key()(self.records()[i as int]) == task_id@);
            let k = choose|k: int| 0 <= k < self.records().len() && record_key()(#[trigger] self.records()[k]) == task_id@;
            assert(k == i as int);
        }
        if self.records[i].status != InteractionStatus::AwaitingReply {
            return Err("duplicate_reply");
        }
        let ghost targets = self.records()[i as int].target_session_ids;
        let mut found = false;
        let mut t: usize = 0;
        while t < self.records[i].target_session_ids.len()
            invariant
                i < self.records@.len(),
                targets == strings_view(self.records@[i as int].target_session_ids@),
                t <= targets.len(),
                found == exists|k: int| 0 <= k < t && targets[k] == target_session_id@,
            decreases targets.len() - t,
        {
            assert(targets[t as int] == self.records@[i as int].target_session_ids@[t as int]@);
            if str_eq(self.records[i].target_session_ids[t].as_str(), target_session_id) {
                found = true;
            }
            t = t + 1;
        }
        if !found {
            return Err("unauthorized");
        }
        let reply = StructuredReply {
            request_id: owned(task_id),
            status: ReplyStatus::Failed,
            body: owned(body),
            target_session_id: owned(target_session_id),
            source_session_id: None,
            replied_at: copy_string(&now),
        };
        Ok(self.record_answer(i, InteractionStatus::Failed, reply, reply_id, None, body, &now))
    }
}

// ---------------------------------------------------------------------------
// Deleting an agent

/// The record involves the session as sender or target.
pub open spec fn touches(r: RecordView, session: Seq<char>) -> bool {
    r.sender_session_id == Some(session) || r.target_session_ids.contains(session)
}

/// The ids of the records.
pub open spec fn record_ids(s: Seq<RecordView>) -> Set<Seq<char>> {
    s.map_values(|r: RecordView| r.id).to_set()
}

/// The ids a deletion starts from: records involving the session.
pub open spec fn direct_ids(s: Seq<RecordView>, session: Seq<char>) -> Set<Seq<char>> {
    Set::new(|id: Seq<char>| exists|i: int| 0 <= i < s.len() && (#[trigger] s[i]).id == id && touches(s[i], session))
}

/// One more generation: the records whose parent is already doomed.
pub open spec fn doom_step(s: Seq<RecordView>, d: Set<Seq<char>>) -> Set<Seq<char>> {
    d.union(Set::new(|id: Seq<char>| exists|i: int| 0 <= i < s.len() && (#[trigger] s[i]).id == id
        && s[i].parent_interaction_id is Some && d.contains(s[i].parent_interaction_id->0)))
}

/// The ids doomed after `n` generations of descendants.
pub open spec fn doomed(s: Seq<RecordView>, session: Seq<char>, n: nat) -> Set<Seq<char>>
    decreases n,
{
    if n == 0 { direct_ids(s, session) } else { doom_step(s, doomed(s, session, (n - 1) as nat)) }
}

/// What a deletion removes: the session's records and all their descendants.
pub open spec fn doomed_ids(s: Seq<RecordView>, session: Seq<char>) -> Set<Seq<char>> {
    doomed(s, session, s.len())
}

pub open spec fn survives(d: Set<Seq<char>>, session: Seq<char>) -> spec_fn(RecordView) -> bool {
    |r: RecordView| !d.contains(r.id) && !touches(r, session)
}

pub open spec fn reply_survives(d: Set<Seq<char>>, session: Seq<char>) -> spec_fn(StructuredReply) -> bool {
    |r: StructuredReply| !d.contains(r.request_id@) && r.target_session_id@ != session && opt_view(r.source_session_id) != Some(session)
}

proof fn lemma_doomed_within(s: Seq<RecordView>, session: Seq<char>, n: nat)
    ensures
        doomed(s, session, n).subset_of(record_ids(s)),
    decreases n,
{
    if n > 0 {
        lemma_doomed_within(s, session, (n - 1) as nat);
    }
    assert forall|id: Seq<char>| doomed(s, session, n).contains(id) implies record_ids(s).contains(id) by {
        if n > 0 {
            if !doomed(s, session, (n - 1) as nat).contains(id) {
                let i = choose|i: int| 0 <= i < s.len() && (#[trigger] s[i]).id == id
                    && s[i].parent_interaction_id is Some && doomed(s, session, (n - 1) as nat).contains(s[i].parent_interaction_id->0);
                assert(s.map_values(|r: RecordView| r.id)[i] == id);
            }
        } else {
            let i = choose|i: int| 0 <= i < s.len() && (#[trigger] s[i]).id == id && touches(s[i], session);
            assert(s.map_values(|r: RecordView| r.id)[i] == id);
        }
    }
}

proof fn lemma_doomed_bounded(s: Seq<RecordView>, session: Seq<char>, n: nat)
    ensures
        doomed(s, session, n).finite(),
        doomed(s, session, n).len() <= s.len(),
{
    lemma_doomed_within(s, session, n);
    s.map_values(|r: RecordView| r.id).lemma_cardinality_of_set();
    vstd::set_lib::lemma_len_subset(doomed(s, session, n), record_ids(s));
}

proof fn lemma_doomed_stable(s: Seq<RecordView>, session: Seq<char>, k: nat, m: nat)
    requires
        doomed(s, session, k + 1) == doomed(s, session, k),
        k <= m,
    ensures
        doomed(s, session, m) == doomed(s, session, k),
    decreases m - k,
{
    if m > k {
        lemma_doomed_stable(s, session, k, (m - 1) as nat);
    }
}

/// Deleting an agent leaves no orphan: no surviving record descends from a
/// removed one, and none involves the deleted session.
pub proof fn law_deletion_leaves_no_orphans(s: Seq<RecordView>, session: Seq<char>, r: RecordView)
    requires
        s.filter(survives(doomed_ids(s, session), session)).contains(r),
    ensures
        !touches(r, session),
        !doomed_ids(s, session).contains(r.id),
        r.parent_interaction_id is Some ==> !doomed_ids(s, session).contains(r.parent_interaction_id->0),
{
    broadcast use vstd::seq_lib::group_filter_ensures;
    let d = doomed_ids(s, session);
    let f = s.filter(survives(d, session));
    let k = choose|k: int| 0 <= k < f.len() && f[k] == r;
    assert(survives(d, session)(f[k]));
    lemma_fixpoint_by_len(s, session);
    assert(doomed(s, session, s.len() + 1) == d);
    // r is in s
    assert(s.filter(survives(d, session)).contains(r));
    lemma_filter_member(s, survives(d, session), r);
    let i = choose|i: int| 0 <= i < s.len() && s[i] == r;
    if r.parent_interaction_id is Some && d.contains(r.parent_interaction_id->0) {
        assert(doom_step(s, d).contains(r.id));
    }
}

proof fn lemma_filter_member<A>(s: Seq<A>, p: spec_fn(A) -> bool, x: A)
    requires
        s.filter(p).contains(x),
    ensures
        s.contains(x),
    decreases s.len(),
{
    reveal(Seq::filter);
    if s.len() > 0 {
        let rest = s.drop_last().filter(p);
        if p(s.last()) && x == s.last() {
            assert(s[s.len() - 1] == x);
        } else {
            if p(s.last()) {
                let k = choose|k: int| 0 <= k < s.filter(p).len() && s.filter(p)[k] == x;
                assert(rest.push(s.last())[k] == x);
                assert(k < rest.len());
                assert(rest[k] == x);
            }
            lemma_filter_member(s.drop_last(), p, x);
            let j = choose|j: int| 0 <= j < s.drop_last().len() && s.drop_last()[j] == x;
            assert(s[j] == x);
        }
    }
}

/// The descendants reach a fixpoint within as many generations as there are records.
proof fn lemma_fixpoint_by_len(s: Seq<RecordView>, session: Seq<char>)
    ensures
        doomed(s, session, s.len() + 1) == doomed(s, session, s.len()),
{
    let n = s.len();
    if exists|k: nat| k <= n && #[trigger] doomed(s, session, k + 1) == doomed(s, session, k) {
        let k = choose|k: nat| k <= n && #[trigger] doomed(s, session, k + 1) == doomed(s, session, k);
        lemma_doomed_stable(s, session, k, n);
        lemma_doomed_stable(s, session, k, n + 1);
    } else {
        lemma_growth(s, session, n + 1);
        lemma_doomed_bounded(s, session, n + 1);
    }
}

proof fn lemma_growth(s: Seq<RecordView>, session: Seq<char>, k: nat)
    requires
        forall|j: nat| j < k ==> #[trigger] doomed(s, session, j + 1) != doomed(s, session, j),
    ensures
        doomed(s, session, k).len() >= k,
    decreases k,
{
    lemma_doomed_bounded(s, session, k);
    if k > 0 {
        let j = (k - 1) as nat;
        lemma_growth(s, session, j);
        lemma_doomed_bounded(s, session, j);
        let prev = doomed(s, session, j);
        let next = doomed(s, session, k);
        assert(prev.subset_of(next));
        assert(doomed(s, session, j + 1) != doomed(s, session, j));
        assert(next != prev);
        assert(!next.subset_of(prev)) by {
            if next.subset_of(prev) {
                assert(next =~= prev);
            }
        }
        let x = choose|x: Seq<char>| next.contains(x) && !prev.contains(x);
        vstd::set_lib::lemma_len_subset(prev, next.remove(x));
    }
}

impl InteractionState {
    fn doomed_round(&self, removed: &Vec<String>) -> (r: Vec<String>)
        requires
            self.wf(),
        ensures
            strings_view(r@).to_set() == doom_step(self.records(), strings_view(removed@).to_set()).difference(strings_view(removed@).to_set()),
            forall|k: int| 0 <= k < r@.len() ==> !strings_view(removed@).to_set().contains(#[trigger] r@[k]@),
    {
        let ghost d = strings_view(removed@).to_set();
        let ghost s = self.records();
        let mut out: Vec<String> = Vec::new();
        let mut i: usize = 0;
        proof { assert(strings_view(out@).to_set() =~= new_descendants(s, d, 0)); }
        while i < self.records.len()
            invariant
                i <= self.records@.len(),
                s == self.records(),
                d == strings_view(removed@).to_set(),
                strings_view(out@).to_set() == new_descendants(s, d, i as int),
                forall|k: int| 0 <= k < out@.len() ==> !d.contains(#[trigger] out@[k]@),
            decreases self.records@.len() - i,
        {
            let record = &self.records[i];
            assert(s[i as int] == record@);
            let in_removed = contains_string(removed, record.id.as_str());
            let parent_removed = match &record.parent_interaction_id {
                Some(p) => contains_string(removed, p.as_str()),
                None => false,
            };
            proof { lemma_new_descendants_step(s, d, i as int); }
            if !in_removed && parent_removed {
                let ghost old_view = strings_view(out@);
                out.push(copy_string(&record.id));
                proof {
                    assert(strings_view(out@) =~= old_view.push(record.id@));
                    lemma_push_to_set(old_view, record.id@);
                }
            }
            i = i + 1;
        }
        assert(new_descendants(s, d, s.len() as int) =~= doom_step(s, d).difference(d));
        out
    }
}

/// The records among the first `n` that are not doomed yet but whose parent is.
pub open spec fn new_descendants(s: Seq<RecordView>, d: Set<Seq<char>>, n: int) -> Set<Seq<char>> {
    Set::new(|id: Seq<char>| exists|j: int| 0 <= j < n && (#[trigger] s[j]).id == id
        && !d.contains(id) && s[j].parent_interaction_id is Some && d.contains(s[j].parent_interaction_id->0))
}

proof fn lemma_new_descendants_step(s: Seq<RecordView>, d: Set<Seq<char>>, i: int)
    requires
        0 <= i < s.len(),
    ensures
        new_descendants(s, d, i + 1) == if !d.contains(s[i].id) && s[i].parent_interaction_id is Some
            && d.contains(s[i].parent_interaction_id->0) {
            new_descendants(s, d, i).insert(s[i].id)
        } else {
            new_descendants(s, d, i)
        },
{
    let c = !d.contains(s[i].id) && s[i].parent_interaction_id is Some && d.contains(s[i].parent_interaction_id->0);
    if c {
        assert(new_descendants(s, d, i + 1) =~= new_descendants(s, d, i).insert(s[i].id));
    } else {
        assert(new_descendants(s, d, i + 1) =~= new_descendants(s, d, i));
    }
}

proof fn lemma_push_to_set(v: Seq<Seq<char>>, x: Seq<char>)
    ensures
        v.push(x).to_set() == v.to_set().insert(x),
{
    assert forall|y: Seq<char>| v.push(x).to_set().contains(y) <==> v.to_set().insert(x).contains(y) by {
        if v.push(x).contains(y) && y != x {
            let k = choose|k: int| 0 <= k < v.push(x).len() && v.push(x)[k] == y;
            assert(k < v.len());
            assert(v[k] == y);
        }
        if v.contains(y) {
            let k = choose|k: int| 0 <= k < v.len() && v[k] == y;
            assert(v.push(x)[k] == y);
        }
        if y == x {
            assert(v.push(x)[v.len() as int] == x);
        }
    }
    assert(v.push(x).to_set() =~= v.to_set().insert(x));
}

fn contains_string(v: &Vec<String>, x: &str) -> (r: bool)
    ensures
        r == strings_view(v@).to_set().contains(x@),
{
    let mut i: usize = 0;
    while i < v.len()
        invariant
            i <= v@.len(),
            forall|k: int| 0 <= k < i ==> v@[k]@ != x@,
        decreases v@.len() - i,
    {
        if str_eq(v[i].as_str(), x) {
            assert(strings_view(v@)[i as int] == x@);
            return true;
        }
        i = i + 1;
    }
    assert forall|k: int| 0 <= k < strings_view(v@).len() implies strings_view(v@)[k] != x@ by {
        assert(strings_view(v@)[k] == v@[k]@);
    }
    false
}

fn touches_session(r: &InteractionRecord, session: &str) -> (b: bool)
    ensures
        b == touches(r@, session@),
{
    let sender = match &r.sender_session_id {
        Some(s) => str_eq(s.as_str(), session),
        None => false,
    };
    if sender {
        return true;
    }
    let ghost targets = r@.target_session_ids;
    let mut i: usize = 0;
    while i < r.target_session_ids.len()
        invariant
            i <= r.target_session_ids@.len(),
            targets == strings_view(r.target_session_ids@),
            forall|k: int| 0 <= k < i ==> targets[k] != session@,
        decreases r.target_session_ids@.len() - i,
    {
        assert(targets[i as int] == r.target_session_ids@[i as int]@);
        if str_eq(r.target_session_ids[i].as_str(), session) {
            assert(targets.contains(session@));
            return true;
        }
        i = i + 1;
    }
    false
}

proof fn lemma_concat_to_set(a: Seq<Seq<char>>, b: Seq<Seq<char>>)
    ensures
        (a + b).to_set() == a.to_set().union(b.to_set()),
{
    assert forall|y: Seq<char>| (a + b).to_set().contains(y) <==> a.to_set().union(b.to_set()).contains(y) by {
        if (a + b).contains(y) {
            let k = choose|k: int| 0 <= k < (a + b).len() && (a + b)[k] == y;
            if k < a.len() {
                assert(a[k] == y);
            } else {
                assert(b[k - a.len()] == y);
            }
        }
        if a.contains(y) {
            let k = choose|k: int| 0 <= k < a.len() && a[k] == y;
            assert((a + b)[k] == y);
        }
        if b.contains(y) {
            let k = choose|k: int| 0 <= k < b.len() && b[k] == y;
            assert((a + b)[a.len() + k] == y);
        }
    }
    assert((a + b).to_set() =~= a.to_set().union(b.to_set()));
}

proof fn lemma_filter_take_step<A>(s: Seq<A>, p: spec_fn(A) -> bool, i: int)
    requires
        0 <= i < s.len(),
    ensures
        s.take(i + 1).filter(p) == if p(s[i]) { s.take(i).filter(p).push(s[i]) } else { s.take(i).filter(p) },
{
    reveal(Seq::filter);
    assert(s.take(i + 1).drop_last() =~= s.take(i));
    assert(s.take(i + 1).last() == s[i]);
}

impl InteractionState {
    /// Forgets an agent once its durable state is deleted: it is marked
    /// deleted, and its interactions, their descendants and its replies leave
    /// the cache, so a late reply finds nothing to answer.
    pub fn delete_agent_durable_state(&mut self, session_id: &str)
        requires
            old(self).wf(),
        ensures
            final(self).wf(),
            final(self).records() == old(self).records().filter(survives(doomed_ids(old(self).records(), session_id@), session_id@)),
            final(self).replies() == old(self).replies().filter(reply_survives(doomed_ids(old(self).records(), session_id@), session_id@)),
            final(self).deleted() == if old(self).is_deleted(session_id@) { old(self).deleted() } else { old(self).deleted().push(session_id@) },
            final(self).provider(session_id@) == empty_track(session_id@),
            forall|x: Seq<char>| x != session_id@ ==> #[trigger] final(self).provider(x) == old(self).provider(x),
            final(self).counter() == old(self).counter(),
    {
        let ghost s = self.records();
        let ghost session = session_id@;
        // The session's own records.
        let mut removed: Vec<String> = Vec::new();
        let mut i: usize = 0;
        while i < self.records.len()
            invariant
                i <= self.records@.len(),
                s == self.records(),
                session == session_id@,
                strings_view(removed@).to_set() == Set::new(|id: Seq<char>| exists|j: int| 0 <= j < i && (#[trigger] s[j]).id == id && touches(s[j], session)),
            decreases self.records@.len() - i,
        {
            let ghost before = strings_view(removed@);
            assert(s[i as int] == self.records@[i as int]@);
            if touches_session(&self.records[i], session_id) {
                removed.push(copy_string(&self.records[i].id));
                proof {
                    assert(strings_view(removed@) =~= before.push(s[i as int].id));
                    lemma_push_to_set(before, s[i as int].id);
                    assert(strings_view(removed@).to_set() =~= Set::new(|id: Seq<char>| exists|j: int| 0 <= j < i + 1 && (#[trigger] s[j]).id == id && touches(s[j], session)));
                }
            } else {
                assert(strings_view(removed@).to_set() =~= Set::new(|id: Seq<char>| exists|j: int| 0 <= j < i + 1 && (#[trigger] s[j]).id == id && touches(s[j], session)));
            }
            i = i + 1;
        }
        assert(strings_view(removed@).to_set() =~= doomed(s, session, 0));
        // Their descendants, a generation at a time.
        let ghost mut round: nat = 0;
        proof { lemma_doomed_bounded(s, session, 0); }
        loop
            invariant
                s == self.records(),
                self.wf(),
                session == session_id@,
                round <= s.len(),
                strings_view(removed@).to_set() == doomed(s, session, round),
                doomed(s, session, round).len() >= round,
            ensures
                round <= s.len(),
                strings_view(removed@).to_set() == doomed(s, session, round),
                doomed(s, session, round + 1) == doomed(s, session, round),
            decreases s.len() - round,
        {
            let fresh = self.doomed_round(&removed);
            let ghost d = doomed(s, session, round);
            assert(doomed(s, session, round + 1) == doom_step(s, d));
            if fresh.len() == 0 {
                assert(strings_view(fresh@).to_set() =~= Set::<Seq<char>>::empty());
                assert(doom_step(s, d) =~= d) by {
                    assert forall|x: Seq<char>| doom_step(s, d).contains(x) implies d.contains(x) by {
                        if !d.contains(x) {
                            assert(doom_step(s, d).difference(d).contains(x));
                        }
                    }
                }
                break;
            }
            let ghost old_view = strings_view(removed@);
            let ghost fresh_view = strings_view(fresh@);
            let mut fresh = fresh;
            removed.append(&mut fresh);
            proof {
                assert(strings_view(removed@) =~= old_view + fresh_view);
                lemma_concat_to_set(old_view, fresh_view);
                assert(strings_view(removed@).to_set() =~= doom_step(s, d));
                let x = fresh_view[0];
                assert(fresh_view.to_set().contains(x));
                assert(!d.contains(x));
                lemma_doomed_bounded(s, session, round);
                lemma_doomed_bounded(s, session, round + 1);
                vstd::set_lib::lemma_len_subset(d, doom_step(s, d).remove(x));
                round = round + 1;
            }
        }
        proof {
            lemma_doomed_stable(s, session, round, s.len());
        }
        let ghost d = doomed_ids(s, session);
        assert(strings_view(removed@).to_set() == d);
        // Keep what survives.
        let ghost keep = survives(d, session);
        let mut kept: Vec<InteractionRecord> = Vec::new();
        let mut k: usize = 0;
        while k < self.records.len()
            invariant
                k <= self.records@.len(),
                s == self.records(),
                session == session_id@,
                strings_view(removed@).to_set() == d,
                keep == survives(d, session),
                records_view(kept@) == s.take(k as int).filter(keep),
            decreases self.records@.len() - k,
        {
            assert(s[k as int] == self.records@[k as int]@);
            proof { lemma_filter_take_step(s, keep, k as int); }
            let gone = contains_string(&removed, self.records[k].id.as_str()) || touches_session(&self.records[k], session_id);
            if !gone {
                let ghost before = records_view(kept@);
                kept.push(copy_record(&self.records[k]));
                assert(records_view(kept@) =~= before.push(s[k as int]));
            }
            k = k + 1;
        }
        assert(s.take(s.len() as int) =~= s);
        let ghost r = self.replies();
        let ghost keep_reply = reply_survives(d, session);
        let mut kept_replies: Vec<StructuredReply> = Vec::new();
        let mut k: usize = 0;
        while k < self.replies.len()
            invariant
                k <= self.replies@.len(),
                r == self.replies(),
                session == session_id@,
                strings_view(removed@).to_set() == d,
                keep_reply == reply_survives(d, session),
                kept_replies@ == r.take(k as int).filter(keep_reply),
            decreases self.replies@.len() - k,
        {
            proof { lemma_filter_take_step(r, keep_reply, k as int); }
            let reply = &self.replies[k];
            let source_is_session = match &reply.source_session_id {
                Some(src) => str_eq(src.as_str(), session_id),
                None => false,
            };
            let gone = contains_string(&removed, reply.request_id.as_str())
                || str_eq(reply.target_session_id.as_str(), session_id) || source_is_session;
            if !gone {
                kept_replies.push(copy_reply(reply));
            }
            k = k + 1;
        }
        assert(r.take(r.len() as int) =~= r);
        proof {
            lemma_filter_keeps_distinct(s, keep, record_key());
            lemma_filter_keeps_distinct(r, keep_reply, reply_key());
        }
        self.records = kept;
        self.replies = kept_replies;
        if !self.session_deleted(session_id) {
            let ghost before = self.deleted();
            self.deleted_sessions.push(owned(session_id));
            assert(self.deleted() =~= before.push(session_id@));
        }
        self.clear_provider_input_state_in_memory(session_id);
    }
}

proof fn lemma_filter_keeps_distinct<A>(s: Seq<A>, p: spec_fn(A) -> bool, key: spec_fn(A) -> Seq<char>)
    requires
        keys_distinct(s, key),
    ensures
        keys_distinct(s.filter(p), key),
        forall|x: A| s.filter(p).contains(x) ==> s.contains(x),
    decreases s.len(),
{
    reveal(Seq::filter);
    if s.len() > 0 {
        let rest = s.drop_last();
        assert(keys_distinct(rest, key)) by {
            assert forall|i: int, j: int| 0 <= i < rest.len() && 0 <= j < rest.len() && i != j implies key(#[trigger] rest[i]) != key(#[trigger] rest[j]) by {
                assert(rest[i] == s[i]);
                assert(rest[j] == s[j]);
            }
        }
        lemma_filter_keeps_distinct(rest, p, key);
        let f = rest.filter(p);
        if p(s.last()) {
            let g = f.push(s.last());
            assert forall|x: A| g.contains(x) implies s.contains(x) by {
                let k = choose|k: int| 0 <= k < g.len() && g[k] == x;
                if k < f.len() {
                    assert(f[k] == x);
                    assert(f.contains(x));
                    assert(rest.contains(x));
                    let j = choose|j: int| 0 <= j < rest.len() && rest[j] == x;
                    assert(s[j] == rest[j]);
                } else {
                    assert(s[s.len() - 1] == x);
                }
            }
            assert forall|i: int, j: int| 0 <= i < g.len() && 0 <= j < g.len() && i != j implies key(#[trigger] g[i]) != key(#[trigger] g[j]) by {
                if i < f.len() && j < f.len() {
                    assert(g[i] == f[i] && g[j] == f[j]);
                } else if i < f.len() {
                    assert(f[i] == g[i]);
                    assert(f.contains(g[i]));
                    assert(rest.contains(g[i]));
                    let a = choose|a: int| 0 <= a < rest.len() && rest[a] == g[i];
                    assert(s[a] == rest[a]);
                    assert(s[s.len() - 1] == g[j]);
                } else {
                    assert(f[j] == g[j]);
                    assert(f.contains(g[j]));
                    assert(rest.contains(g[j]));
                    let a = choose|a: int| 0 <= a < rest.len() && rest[a] == g[j];
                    assert(s[a] == rest[a]);
                    assert(s[s.len() - 1] == g[i]);
                }
            }
        } else {
            assert forall|x: A| f.contains(x) implies s.contains(x) by {
                assert(rest.contains(x));
                let j = choose|j: int| 0 <= j < rest.len() && rest[j] == x;
                assert(s[j] == rest[j]);
            }
        }
    }
}

/// A deleted agent's interactions are gone from the cache, so a late reply
/// to one of them finds nothing to answer.
pub proof fn law_a_deleted_agents_interactions_are_gone(s: Seq<RecordView>, session: Seq<char>, id: Seq<char>)
    requires
        keys_distinct(s, record_key()),
        has_record(s, id),
        touches(record_with(s, id), session),
    ensures
        !has_record(s.filter(survives(doomed_ids(s, session), session)), id),
{
    broadcast use vstd::seq_lib::group_filter_ensures;
    let f = s.filter(survives(doomed_ids(s, session), session));
    if has_record(f, id) {
        let k = choose|k: int| 0 <= k < f.len() && record_key()(#[trigger] f[k]) == id;
        assert(survives(doomed_ids(s, session), session)(f[k]));
        lemma_filter_member(s, survives(doomed_ids(s, session), session), f[k]);
        let j = choose|j: int| 0 <= j < s.len() && s[j] == f[k];
        let w = choose|i: int| 0 <= i < s.len() && record_key()(#[trigger] s[i]) == id;
        assert(record_key()(s[j]) == id);
        assert(j == w);
    }
}

/// A task is answered at most once: after an answer is recorded the task is
/// no longer awaiting one, so a second answer is refused as a duplicate.
pub proof fn law_a_task_is_answered_once(
    before: Seq<RecordView>,
    replies_before: Seq<StructuredReply>,
    after: Seq<RecordView>,
    replies_after: Seq<StructuredReply>,
    r: TaskReply,
    task: RecordView,
    status: InteractionStatus,
    reply_id: Seq<char>,
    source: Option<Seq<char>>,
    body: Seq<char>,
    now: Seq<char>,
)
    requires
        keys_distinct(before, record_key()),
        status != InteractionStatus::AwaitingReply,
        answered(before, replies_before, after, replies_after, r, task, status, reply_id, source, body, now),
    ensures
        has_record(after, task.id),
        record_with(after, task.id).status != InteractionStatus::AwaitingReply,
{
    let mid = upsert_by(before, record_key(), r.task@);
    lemma_upsert_by(before, record_key(), r.task@);
    lemma_upsert_by(mid, record_key(), r.reply_record@);
    assert(record_key()(r.task@) == task.id);
}

// ---------------------------------------------------------------------------
// Notifications

/// A notification past its expiry at `now`; an expiry that does not parse
/// counts as past, a `now` that does not parse as not.
pub open spec fn expired_spec(p: PayloadView, now: Seq<char>) -> bool {
    match p.expires_at {
        None => false,
        Some(e) => match rfc3339_instant(e) {
            None => true,
            Some(x) => match rfc3339_instant(now) {
                None => false,
                Some(y) => instant_le(x, y),
            },
        },
    }
}

/// Whether a notification has expired at `now`.
pub fn is_notification_expired(payload: &InboxNotificationPayload, now: &str) -> (r: bool)
    ensures
        r == expired_spec(payload@, now@),
{
    match &payload.expires_at {
        None => false,
        Some(e) => match rfc3339_not_after(e.as_str(), now) {
            Err(first_unreadable) => first_unreadable,
            Ok(not_after) => not_after,
        },
    }
}

/// An approval from `sender` still waiting for its answer.
pub open spec fn open_approval_from(r: RecordView, sender: Seq<char>) -> bool {
    r.kind == InteractionKind::Notification && r.sender_session_id == Some(sender) && r.status == InteractionStatus::AwaitingReply
}

/// An open approval from `sender` that expires at `now`.
pub open spec fn lapses(sender: Seq<char>, now: Seq<char>) -> spec_fn(RecordView) -> bool {
    |r: RecordView| open_approval_from(r, sender) && r.payload is Some && expired_spec(r.payload->0, now)
}

pub open spec fn expire_at(now: Seq<char>) -> spec_fn(RecordView) -> RecordView {
    |r: RecordView| finished(r, InteractionStatus::Expired, now)
}

/// The notification record created from a payload.
pub open spec fn notification_record_spec(id: Seq<char>, sender: Seq<char>, payload: PayloadView, body: Seq<char>, now: Seq<char>) -> RecordView {
    let approval = payload.kind == InboxNotificationKind::Approval;
    RecordView {
        payload: Some(payload),
        ..fresh_record(
            id,
            InteractionKind::Notification,
            Some(sender),
            Seq::empty(),
            if approval { InteractionStatus::AwaitingReply } else { InteractionStatus::Completed },
            if approval { InteractionTriggerPolicy::ReplyRequired } else { InteractionTriggerPolicy::NotifyOnly },
            body,
            None,
            now,
            !approval,
        )
    }
}

/// What checking a notification for expiry finds.
#[derive(Debug)]
pub enum ExpiryCheck {
    /// No such record, or a waiting notification whose payload does not decode.
    Missing,
    /// The record as it stands.
    Current(InteractionRecord),
    /// The notification expired: write this record and commit it.
    Expire(InteractionRecord),
}

/// What answering an approval needs next.
#[derive(Debug)]
pub enum Resolution {
    /// Refused, with nothing to write.
    Refused(&'static str),
    /// The approval expired: write and commit this record, then refuse it as
    /// `expired` (as `not_found` when the write fails).
    ExpireThenRefuse(InteractionRecord),
    /// Write and commit the answered approval and its resolution reply, then
    /// report the decision.
    Resolve { updated: InteractionRecord, decision: InboxNotificationDecision },
}

pub open spec fn expiry_spec(s: Seq<RecordView>, id: Seq<char>, now: Seq<char>, r: ExpiryCheck) -> bool {
    if !has_record(s, id) {
        r is Missing
    } else {
        let n = record_with(s, id);
        if n.kind != InteractionKind::Notification || n.status != InteractionStatus::AwaitingReply {
            r is Current && r->Current_0@ == n
        } else if n.payload is None {
            r is Missing
        } else if !expired_spec(n.payload->0, now) {
            r is Current && r->Current_0@ == n
        } else {
            r is Expire && r->Expire_0@ == finished(n, InteractionStatus::Expired, now)
        }
    }
}

pub open spec fn resolution_spec(s: Seq<RecordView>, id: Seq<char>, choice: Seq<char>, now: Seq<char>, r: Resolution) -> bool {
    if !has_record(s, id) {
        r == Resolution::Refused("not_found")
    } else {
        let n = record_with(s, id);
        let waiting = n.kind == InteractionKind::Notification && n.status == InteractionStatus::AwaitingReply;
        if waiting && n.payload is None {
            r == Resolution::Refused("not_found")
        } else if waiting && expired_spec(n.payload->0, now) {
            r is ExpireThenRefuse && r->ExpireThenRefuse_0@ == finished(n, InteractionStatus::Expired, now)
        } else if n.status == InteractionStatus::Expired {
            r == Resolution::Refused("expired")
        } else if n.kind != InteractionKind::Notification {
            r == Resolution::Refused("not_notification")
        } else if n.status != InteractionStatus::AwaitingReply {
            r == Resolution::Refused("already_resolved")
        } else if n.payload->0.kind != InboxNotificationKind::Approval {
            r == Resolution::Refused("not_approval")
        } else if !n.payload->0.choices.contains(choice) {
            r == Resolution::Refused("invalid_choice")
        } else {
            r is Resolve && r->updated@ == finished(n, InteractionStatus::Completed, now)
                && r->decision.choice@ == choice && r->decision.resolved_at@ == now
        }
    }
}

fn contains_choice(choices: &Vec<String>, choice: &str) -> (r: bool)
    ensures
        r == strings_view(choices@).contains(choice@),
{
    let mut i: usize = 0;
    while i < choices.len()
        invariant
            i <= choices@.len(),
            forall|k: int| 0 <= k < i ==> choices@[k]@ != choice@,
        decreases choices@.len() - i,
    {
        if str_eq(choices[i].as_str(), choice) {
            assert(strings_view(choices@)[i as int] == choice@);
            return true;
        }
        i = i + 1;
    }
    assert forall|k: int| 0 <= k < strings_view(choices@).len() implies strings_view(choices@)[k] != choice@ by {
        assert(strings_view(choices@)[k] == choices@[k]@);
    }
    false
}

/// The reply that records an approval's answer, addressed to the agent that
/// asked; `body` is the decision as the store writes it.
pub fn resolution_record(notification: &InteractionRecord, reply_id: String, body: String, now: &String) -> (r: InteractionRecord)
    ensures
        r@ == reply_record_spec(notification@, reply_id@, None, body@, now@),
{
    let targets: Vec<String> = match &notification.sender_session_id {
        Some(sender) => {
            let mut v: Vec<String> = Vec::new();
            v.push(copy_string(sender));
            proof { assert(strings_view(v@) =~= seq![sender@]); }
            v
        },
        None => {
            let v: Vec<String> = Vec::new();
            proof { assert(strings_view(v@) =~= Seq::<Seq<char>>::empty()); }
            v
        },
    };
    build_record(reply_id, InteractionKind::Reply, None, targets, InteractionStatus::Completed,
        InteractionTriggerPolicy::NotifyOnly, InteractionBodyRef::Inline { body }, Some(copy_string(&notification.id)), now, true)
}

impl InteractionState {
    /// The records to write for a new notification, the approvals from the
    /// same agent that have expired first and the notification last; an agent
    /// has at most one approval waiting at a time.
    pub fn create_notification_durable(
        &self,
        id: String,
        sender_session_id: String,
        payload: InboxNotificationPayload,
        body: String,
        now: String,
    ) -> (r: Result<Vec<InteractionRecord>, &'static str>)
        requires
            self.wf(),
        ensures
            ({
                let approval = payload.kind == InboxNotificationKind::Approval;
                let expired = if approval {
                    self.records().filter(lapses(sender_session_id@, now@)).map_values(expire_at(now@))
                } else {
                    Seq::empty()
                };
                let blocked = approval && exists|i: int| 0 <= i < self.records().len()
                    && open_approval_from(#[trigger] self.records()[i], sender_session_id@)
                    && !lapses(sender_session_id@, now@)(self.records()[i]);
                if blocked {
                    r == Err::<Vec<InteractionRecord>, &'static str>("approval_already_open")
                } else {
                    r is Ok && records_view(r->Ok_0@) == expired.push(
                        notification_record_spec(id@, sender_session_id@, payload@, body@, now@))
                }
            }),
    {
        let approval = payload.kind == InboxNotificationKind::Approval;
        let ghost s = self.records();
        let ghost p = lapses(sender_session_id@, now@);
        let mut out: Vec<InteractionRecord> = Vec::new();
        let mut blocked = false;
        if approval {
            let mut i: usize = 0;
            while i < self.records.len()
                invariant
                    i <= self.records@.len(),
                    s == self.records(),
                    p == lapses(sender_session_id@, now@),
                    records_view(out@) == s.take(i as int).filter(p).map_values(expire_at(now@)),
                    blocked == exists|j: int| 0 <= j < i && open_approval_from(#[trigger] s[j], sender_session_id@) && !p(s[j]),
                decreases self.records@.len() - i,
            {
                let record = &self.records[i];
                assert(s[i as int] == record@);
                proof { lemma_filter_take_step(s, p, i as int); }
                let open = record.kind == InteractionKind::Notification && record.status == InteractionStatus::AwaitingReply
                    && match &record.sender_session_id {
                        Some(x) => str_eq(x.as_str(), sender_session_id.as_str()),
                        None => false,
                    };
                let lapsed = open && match &record.payload {
                    Some(pl) => is_notification_expired(pl, now.as_str()),
                    None => false,
                };
                assert(open == open_approval_from(s[i as int], sender_session_id@));
                assert(lapsed == p(s[i as int]));
                let ghost fx = s.take(i as int).filter(p);
                if lapsed {
                    let ghost before = records_view(out@);
                    let mut expired = copy_record(record);
                    expired.status = InteractionStatus::Expired;
                    expired.updated_at = copy_string(&now);
                    expired.completed_at = Some(copy_string(&now));
                    assert(expired@ == expire_at(now@)(s[i as int]));
                    let ghost ev = expired@;
                    out.push(expired);
                    assert(records_view(out@) =~= before.push(ev));
                    assert(s.take(i + 1).filter(p) == fx.push(s[i as int]));
                    assert(fx.push(s[i as int]).map_values(expire_at(now@)) =~= fx.map_values(expire_at(now@)).push(ev));
                    assert(records_view(out@) =~= s.take(i + 1).filter(p).map_values(expire_at(now@)));
                } else {
                    assert(records_view(out@) =~= s.take(i + 1).filter(p).map_values(expire_at(now@)));
                    if open {
                        blocked = true;
                    }
                }
                i = i + 1;
            }
            assert(s.take(s.len() as int) =~= s);
        }
        if blocked {
            return Err("approval_already_open");
        }
        let no_targets: Vec<String> = Vec::new();
        assert(strings_view(no_targets@) =~= Seq::<Seq<char>>::empty());
        let mut record = build_record(id, InteractionKind::Notification, Some(sender_session_id), no_targets,
            if approval { InteractionStatus::AwaitingReply } else { InteractionStatus::Completed },
            if approval { InteractionTriggerPolicy::ReplyRequired } else { InteractionTriggerPolicy::NotifyOnly },
            InteractionBodyRef::Inline { body }, None, &now, !approval);
        record.payload = Some(payload);
        let ghost before = records_view(out@);
        let ghost rv = record@;
        assert(rv == notification_record_spec(id@, sender_session_id@, payload@, body@, now@));
        out.push(record);
        assert(records_view(out@) =~= before.push(rv));
        proof {
            if !approval {
                assert(before =~= Seq::<RecordView>::empty());
            }
        }
        Ok(out)
    }

    /// Checks a notification for expiry at `now`.
    pub fn expire_notification_if_needed(&self, notification_id: &str, now: &str) -> (r: ExpiryCheck)
        requires
            self.wf(),
        ensures
            expiry_spec(self.records(), notification_id@, now@, r),
    {
        let i = match self.find(notification_id) {
            Some(i) => i,
            None => return ExpiryCheck::Missing,
        };
        proof {
            assert(record_key()(self.records()[i as int]) == notification_id@);
            let k = choose|k: int| 0 <= k < self.records().len() && record_key()(#[trigger] self.records()[k]) == notification_id@;
            assert(k == i as int);
        }
        let n = &self.records[i];
        if n.kind != InteractionKind::Notification || n.status != InteractionStatus::AwaitingReply {
            return ExpiryCheck::Current(copy_record(n));
        }
        let expired = match &n.payload {
            None => return ExpiryCheck::Missing,
            Some(p) => is_notification_expired(p, now),
        };
        if !expired {
            return ExpiryCheck::Current(copy_record(n));
        }
        let mut e = copy_record(n);
        e.status = InteractionStatus::Expired;
        e.updated_at = owned(now);
        e.completed_at = Some(owned(now));
        ExpiryCheck::Expire(e)
    }

    /// Decides an answer to an approval at `now`.
    pub fn resolve_notification(&self, notification_id: &str, choice: &str, now: &str) -> (r: Resolution)
        requires
            self.wf(),
        ensures
            resolution_spec(self.records(), notification_id@, choice@, now@, r),
    {
        let current = match self.expire_notification_if_needed(notification_id, now) {
            ExpiryCheck::Missing => return Resolution::Refused("not_found"),
            ExpiryCheck::Expire(e) => return Resolution::ExpireThenRefuse(e),
            ExpiryCheck::Current(c) => c,
        };
        if current.status == InteractionStatus::Expired {
            return Resolution::Refused("expired");
        }
        if current.kind != InteractionKind::Notification {
            return Resolution::Refused("not_notification");
        }
        if current.status != InteractionStatus::AwaitingReply {
            return Resolution::Refused("already_resolved");
        }
        let payload = match &current.payload {
            Some(p) => p,
            None => return Resolution::Refused("invalid_notification"),
        };
        if payload.kind != InboxNotificationKind::Approval {
            return Resolution::Refused("not_approval");
        }
        if !contains_choice(&payload.choices, choice) {
            return Resolution::Refused("invalid_choice");
        }
        let mut updated = copy_record(&current);
        updated.status = InteractionStatus::Completed;
        updated.updated_at = owned(now);
        updated.completed_at = Some(owned(now));
        Resolution::Resolve {
            updated,
            decision: InboxNotificationDecision { choice: owned(choice), resolved_at: owned(now) },
        }
    }

    /// The reply that resolved a notification, if any.
    pub fn notification_reply(&self, notification_id: &str) -> (r: Option<InteractionRecord>)
        ensures
            r is Some ==> self.records().contains(r->0@) && r->0@.kind == InteractionKind::Reply
                && r->0@.parent_interaction_id == Some(notification_id@),
            r is None ==> forall|i: int| 0 <= i < self.records().len() ==> !((#[trigger] self.records()[i]).kind == InteractionKind::Reply
                && self.records()[i].parent_interaction_id == Some(notification_id@)),
    {
        let mut i: usize = 0;
        while i < self.records.len()
            invariant
                i <= self.records@.len(),
                forall|k: int| 0 <= k < i ==> !((#[trigger] self.records()[k]).kind == InteractionKind::Reply
                    && self.records()[k].parent_interaction_id == Some(notification_id@)),
            decreases self.records@.len() - i,
        {
            let record = &self.records[i];
            assert(self.records()[i as int] == record@);
            let is_answer = record.kind == InteractionKind::Reply && match &record.parent_interaction_id {
                Some(p) => str_eq(p.as_str(), notification_id),
                None => false,
            };
            if is_answer {
                return Some(copy_record(record));
            }
            i = i + 1;
        }
        None
    }
}

impl InteractionState {
    fn find_track(&self, session: &str) -> (r: Option<usize>)
        ensures
            match r {
                Some(i) => i < self.tracks().len() && self.tracks()[i as int].session_id == session@,
                None => !has_key(self.tracks(), track_key(), session@),
            },
    {
        let mut i: usize = 0;
        while i < self.providers.len()
            invariant
                i <= self.providers@.len(),
                forall|k: int| 0 <= k < i ==> self.tracks()[k].session_id != session@,
            decreases self.providers@.len() - i,
        {
            assert(self.tracks()[i as int] == self.providers@[i as int]@);
            if str_eq(self.providers[i].session_id.as_str(), session) {
                return Some(i);
            }
            i = i + 1;
        }
        None
    }

    fn track(&self, session: &str) -> (r: (Option<u64>, Option<u64>, Option<u64>, Option<ProviderInputState>))
        requires
            self.wf(),
        ensures
            r.0 == self.provider(session@).generation,
            r.1 == self.provider(session@).tombstone,
            r.2 == self.provider(session@).observation,
            input_view(r.3) == self.provider(session@).input,
    {
        match self.find_track(session) {
            Some(i) => {
                proof {
                    assert(track_key()(self.tracks()[i as int]) == session@);
                    let k = choose|k: int| 0 <= k < self.tracks().len() && track_key()(#[trigger] self.tracks()[k]) == session@;
                    assert(k == i as int);
                }
                let t = &self.providers[i];
                (t.generation, t.tombstone, t.observation, match &t.input { Some(x) => Some(copy_input(x)), None => None })
            },
            None => (None, None, None, None),
        }
    }

    fn set_track(&mut self, session: &str, generation: Option<u64>, tombstone: Option<u64>, observation: Option<u64>, input: Option<ProviderInputState>)
        requires
            old(self).wf(),
        ensures
            final(self).wf(),
            final(self).tracks() == upsert_by(old(self).tracks(), track_key(),
                TrackView { session_id: session@, generation, tombstone, observation, input: input_view(input) }),
            forall|x: Seq<char>| #[trigger] final(self).provider(x) == if x == session@ {
                TrackView { session_id: session@, generation, tombstone, observation, input: input_view(input) }
            } else {
                old(self).provider(x)
            },
            final(self).records() == old(self).records(),
            final(self).replies() == old(self).replies(),
            final(self).deleted() == old(self).deleted(),
            final(self).counter() == old(self).counter(),
    {
        let ghost before = self.tracks();
        let track = ProviderTrack { session_id: owned(session), generation, tombstone, observation, input };
        let ghost tv = track@;
        proof { lemma_upsert_by(before, track_key(), tv); }
        match self.find_track(session) {
            Some(i) => {
                proof {
                    assert(track_key()(before[i as int]) == session@);
                    let k = choose|k: int| 0 <= k < before.len() && track_key()(#[trigger] before[k]) == track_key()(tv);
                    assert(k == i as int);
                }
                self.providers.set(i, track);
                assert(self.tracks() =~= before.update(i as int, tv));
            },
            None => {
                self.providers.push(track);
                assert(self.tracks() =~= before.push(tv));
            },
        }
        assert(self.tracks() == upsert_by(before, track_key(), tv));
    }

    fn record_input(&mut self, session_id: &str, generation: u64, state: ProviderInputReadiness,
        ready_evidence: Option<ProviderReadyEvidence>, now: &str) -> (r: ProviderInputState)
        requires
            old(self).wf(),
        ensures
            final(self).wf(),
            (final(self).provider(session_id@), r@) == record_input_spec(old(self).provider(session_id@), generation, state, ready_evidence, now@),
            forall|x: Seq<char>| x != session_id@ ==> #[trigger] final(self).provider(x) == old(self).provider(x),
            final(self).records() == old(self).records(),
            final(self).replies() == old(self).replies(),
            final(self).deleted() == old(self).deleted(),
            final(self).counter() == old(self).counter(),
    {
        let (g, hw, obs, input) = self.track(session_id);
        let high = match hw { Some(x) => x, None => 0 };
        let (current, g2, hw2) = if g == Some(generation) {
            (true, g, hw)
        } else if g.is_none() && high == 0 && generation == 0 {
            (true, Some(0u64), hw)
        } else if generation > high {
            (true, Some(generation), Some(generation))
        } else {
            (false, g, hw)
        };
        let fresh = ProviderInputState { session_id: owned(session_id), generation, state, ready_evidence, observed_at: owned(now) };
        if !current {
            self.set_track(session_id, g2, hw2, obs, match &input { Some(x) => Some(copy_input(x)), None => None });
            return match input { Some(x) => x, None => fresh };
        }
        match input {
            Some(existing) => {
                if keep_existing_provider_input_state(&existing, generation, state, ready_evidence) {
                    self.set_track(session_id, g2, hw2, obs, Some(copy_input(&existing)));
                    return existing;
                }
            },
            None => {},
        }
        self.set_track(session_id, g2, hw2, obs, Some(copy_input(&fresh)));
        fresh
    }

    /// Records a provider's input readiness at `now`. Observations of a
    /// stale generation, and weaker restatements of the current state, leave
    /// it in place; a session deleted in this process keeps nothing.
    pub fn record_provider_input_state(&mut self, session_id: &str, generation: u64, state: ProviderInputReadiness,
        ready_evidence: Option<ProviderReadyEvidence>, now: &str) -> (r: ProviderInputState)
        requires
            old(self).wf(),
        ensures
            final(self).wf(),
            old(self).is_deleted(session_id@) ==> r@ == input_spec(session_id@, generation, state, ready_evidence, now@)
                && final(self).tracks() == old(self).tracks(),
            !old(self).is_deleted(session_id@) ==> (final(self).provider(session_id@), r@)
                == record_input_spec(old(self).provider(session_id@), generation, state, ready_evidence, now@),
            forall|x: Seq<char>| x != session_id@ ==> #[trigger] final(self).provider(x) == old(self).provider(x),
            final(self).records() == old(self).records(),
            final(self).replies() == old(self).replies(),
            final(self).deleted() == old(self).deleted(),
            final(self).counter() == old(self).counter(),
    {
        if self.session_deleted(session_id) {
            return ProviderInputState { session_id: owned(session_id), generation, state, ready_evidence, observed_at: owned(now) };
        }
        self.record_input(session_id, generation, state, ready_evidence, now)
    }

    /// Records an observation that carries the provider's status sequence:
    /// one older than the last seen reports the current state unchanged.
    pub fn record_provider_input_status_observation(&mut self, session_id: &str, status_sequence: u64, generation: u64,
        state: ProviderInputReadiness, ready_evidence: Option<ProviderReadyEvidence>, now: &str) -> (r: ProviderInputState)
        requires
            old(self).wf(),
        ensures
            final(self).wf(),
            ({
                let t = old(self).provider(session_id@);
                if old(self).is_deleted(session_id@) {
                    r@ == input_spec(session_id@, generation, state, ready_evidence, now@) && final(self).tracks() == old(self).tracks()
                } else if t.observation is Some && status_sequence < t.observation->0 && t.input is Some {
                    r@ == t.input->0 && final(self).tracks() == old(self).tracks()
                } else {
                    let observed = if t.observation is Some && status_sequence < t.observation->0 { t }
                        else { TrackView { observation: Some(status_sequence), ..t } };
                    (final(self).provider(session_id@), r@) == record_input_spec(observed, generation, state, ready_evidence, now@)
                }
            }),
            forall|x: Seq<char>| x != session_id@ ==> #[trigger] final(self).provider(x) == old(self).provider(x),
            final(self).records() == old(self).records(),
            final(self).replies() == old(self).replies(),
            final(self).deleted() == old(self).deleted(),
            final(self).counter() == old(self).counter(),
    {
        if self.session_deleted(session_id) {
            return ProviderInputState { session_id: owned(session_id), generation, state, ready_evidence, observed_at: owned(now) };
        }
        let (g, hw, obs, input) = self.track(session_id);
        let older = match obs { Some(c) => status_sequence < c, None => false };
        if older {
            if let Some(existing) = input {
                return existing;
            }
        } else {
            self.set_track(session_id, g, hw, Some(status_sequence), input);
        }
        self.record_input(session_id, generation, state, ready_evidence, now)
    }

    /// Starts a new input generation for a provider: one past any it ever
    /// had, so observations of earlier generations are fenced off.
    pub fn start_provider_input_generation(&mut self, session_id: &str, state: ProviderInputReadiness,
        ready_evidence: Option<ProviderReadyEvidence>, now: &str) -> (r: ProviderInputState)
        requires
            old(self).wf(),
        ensures
            final(self).wf(),
            ({
                let t = old(self).provider(session_id@);
                let next = max_spec(unwrap_or_zero(t.generation), unwrap_or_zero(t.tombstone));
                let generation = if next == u64::MAX { u64::MAX } else { (next + 1) as u64 };
                if old(self).is_deleted(session_id@) {
                    r@ == input_spec(session_id@, 0, state, ready_evidence, now@) && final(self).tracks() == old(self).tracks()
                } else {
                    (final(self).provider(session_id@), r@) == record_input_spec(
                        TrackView { generation: Some(generation), tombstone: Some(generation), ..t },
                        generation, state, ready_evidence, now@)
                }
            }),
            forall|x: Seq<char>| x != session_id@ ==> #[trigger] final(self).provider(x) == old(self).provider(x),
            final(self).records() == old(self).records(),
            final(self).replies() == old(self).replies(),
            final(self).deleted() == old(self).deleted(),
            final(self).counter() == old(self).counter(),
    {
        if self.session_deleted(session_id) {
            return ProviderInputState { session_id: owned(session_id), generation: 0, state, ready_evidence, observed_at: owned(now) };
        }
        let (g, hw, obs, input) = self.track(session_id);
        let next = max_u64(match g { Some(x) => x, None => 0 }, match hw { Some(x) => x, None => 0 });
        let generation = next.saturating_add(1);
        self.set_track(session_id, Some(generation), Some(generation), obs, input);
        self.record_input(session_id, generation, state, ready_evidence, now)
    }

    /// The provider's input state.
    pub fn provider_input_state(&self, session_id: &str) -> (r: Option<ProviderInputState>)
        requires
            self.wf(),
        ensures
            input_view(r) == self.provider(session_id@).input,
    {
        self.track(session_id).3
    }

    /// The provider's current input generation.
    pub fn current_provider_input_generation(&self, session_id: &str) -> (r: Option<u64>)
        requires
            self.wf(),
        ensures
            r == self.provider(session_id@).generation,
    {
        self.track(session_id).0
    }

    /// The provider's generation, status sequence and state, to restore if a
    /// replacement fails.
    pub fn capture_provider_input_rollback_snapshot(&self, session_id: &str) -> (r: ProviderInputRollbackSnapshot)
        requires
            self.wf(),
        ensures
            r.generation == self.provider(session_id@).generation,
            r.status_observation == self.provider(session_id@).observation,
            input_view(r.state) == self.provider(session_id@).input,
    {
        let (g, _hw, obs, input) = self.track(session_id);
        ProviderInputRollbackSnapshot { generation: g, status_observation: obs, state: input }
    }

    /// The recovery marker to write before restoring `snapshot`: it records
    /// the generation the restore discards.
    pub fn provider_input_rollback_recovery(&self, session_id: &str, snapshot: ProviderInputRollbackSnapshot) -> (r: ProviderInputRollbackRecovery)
        requires
            self.wf(),
        ensures
            r.snapshot == snapshot,
            r.discarded_generation == self.provider(session_id@).generation,
    {
        ProviderInputRollbackRecovery { snapshot, discarded_generation: self.track(session_id).0 }
    }

    /// Applies a recovery in memory: the snapshot comes back, and the high
    /// watermark stays above every generation it discards.
    pub fn apply_provider_input_rollback_recovery(&mut self, session_id: &str, recovery: &ProviderInputRollbackRecovery, restore_status_observation: bool)
        requires
            old(self).wf(),
        ensures
            final(self).wf(),
            final(self).provider(session_id@) == recovered_spec(old(self).provider(session_id@), *recovery, restore_status_observation),
            forall|x: Seq<char>| x != session_id@ ==> #[trigger] final(self).provider(x) == old(self).provider(x),
            final(self).records() == old(self).records(),
            final(self).replies() == old(self).replies(),
            final(self).deleted() == old(self).deleted(),
            final(self).counter() == old(self).counter(),
    {
        let (_g, hw, _obs, _input) = self.track(session_id);
        let high = max_u64(
            max_u64(match hw { Some(x) => x, None => 0 }, match recovery.discarded_generation { Some(x) => x, None => 0 }),
            match recovery.snapshot.generation { Some(x) => x, None => 0 },
        );
        let tombstone = if high > 0 { Some(high) } else { hw };
        let observation = if restore_status_observation { recovery.snapshot.status_observation } else { None };
        let input = match &recovery.snapshot.state { Some(x) => Some(copy_input(x)), None => None };
        self.set_track(session_id, recovery.snapshot.generation, tombstone, observation, input);
    }

    /// Whether a recovery marker is already superseded by the state read back
    /// from the durable store: its generation is past the one the marker discarded.
    pub fn provider_input_recovery_superseded(&self, session_id: &str, recovery: &ProviderInputRollbackRecovery) -> (r: bool)
        requires
            self.wf(),
        ensures
            r == (self.provider(session_id@).input is Some
                && self.provider(session_id@).input->0.generation > unwrap_or_zero(recovery.discarded_generation)),
    {
        match self.track(session_id).3 {
            Some(input) => input.generation > match recovery.discarded_generation { Some(x) => x, None => 0 },
            None => false,
        }
    }

    /// What startup does with one recovery marker, given whether the agent
    /// is still in the durable store (`None` when that could not be
    /// checked): a deleted agent's marker is resolved without recreating
    /// readiness, an unchecked one is kept for a later retry, a superseded
    /// one is resolved, and any other is applied.
    pub fn provider_input_recovery_step(&self, session_id: &str, recovery: &ProviderInputRollbackRecovery, agent_exists: Option<bool>) -> (r: RecoveryStep)
        requires
            self.wf(),
        ensures
            agent_exists == Some(false) ==> r == RecoveryStep::Resolve,
            agent_exists is None ==> r == RecoveryStep::Retain,
            agent_exists == Some(true) ==> r == (if self.provider(session_id@).input is Some
                && self.provider(session_id@).input->0.generation > unwrap_or_zero(recovery.discarded_generation) {
                RecoveryStep::Resolve
            } else {
                RecoveryStep::Apply
            }),
    {
        match agent_exists {
            Some(false) => RecoveryStep::Resolve,
            None => RecoveryStep::Retain,
            Some(true) => if self.provider_input_recovery_superseded(session_id, recovery) {
                RecoveryStep::Resolve
            } else {
                RecoveryStep::Apply
            },
        }
    }

    /// Forgets a provider's readiness in memory.
    pub fn clear_provider_input_state_in_memory(&mut self, session_id: &str)
        requires
            old(self).wf(),
        ensures
            final(self).wf(),
            final(self).provider(session_id@) == empty_track(session_id@),
            forall|x: Seq<char>| x != session_id@ ==> #[trigger] final(self).provider(x) == old(self).provider(x),
            final(self).records() == old(self).records(),
            final(self).replies() == old(self).replies(),
            final(self).deleted() == old(self).deleted(),
            final(self).counter() == old(self).counter(),
    {
        self.set_track(session_id, None, None, None, None);
    }

    /// Lets a session that was deleted in this process be used again.
    pub fn clear_deleted_session(&mut self, session_id: &str)
        requires
            old(self).wf(),
        ensures
            final(self).wf(),
            final(self).deleted() == old(self).deleted().filter(other_than(session_id@)),
            final(self).records() == old(self).records(),
            final(self).replies() == old(self).replies(),
            final(self).tracks() == old(self).tracks(),
            final(self).counter() == old(self).counter(),
    {
        let ghost before = self.deleted();
        let ghost p = other_than(session_id@);
        let mut kept: Vec<String> = Vec::new();
        let mut i: usize = 0;
        while i < self.deleted_sessions.len()
            invariant
                i <= self.deleted_sessions@.len(),
                before == strings_view(self.deleted_sessions@),
                p == other_than(session_id@),
                strings_view(kept@) == before.take(i as int).filter(p),
            decreases self.deleted_sessions@.len() - i,
        {
            proof { lemma_filter_take_step(before, p, i as int); }
            assert(before[i as int] == self.deleted_sessions@[i as int]@);
            if !str_eq(self.deleted_sessions[i].as_str(), session_id) {
                let ghost old_kept = strings_view(kept@);
                kept.push(copy_string(&self.deleted_sessions[i]));
                assert(strings_view(kept@) =~= old_kept.push(before[i as int]));
            }
            i = i + 1;
        }
        assert(before.take(before.len() as int) =~= before);
        self.deleted_sessions = kept;
    }
}

/// `s` after upserting each of `xs` in turn.
pub open spec fn upsert_all<T>(s: Seq<T>, key: spec_fn(T) -> Seq<char>, xs: Seq<T>) -> Seq<T>
    decreases xs.len(),
{
    if xs.len() == 0 { s } else { upsert_by(upsert_all(s, key, xs.drop_last()), key, xs.last()) }
}

/// The provider sessions after loading each stored input in turn: an input
/// sets its session's state, generation and high watermark.
pub open spec fn hydrate_tracks(t: Seq<TrackView>, xs: Seq<InputView>) -> Seq<TrackView>
    decreases xs.len(),
{
    if xs.len() == 0 {
        t
    } else {
        let prev = hydrate_tracks(t, xs.drop_last());
        let x = xs.last();
        upsert_by(prev, track_key(), TrackView {
            session_id: x.session_id,
            generation: Some(x.generation),
            tombstone: Some(x.generation),
            observation: track_of(prev, x.session_id).observation,
            input: Some(x),
        })
    }
}

impl InteractionState {
    /// Loads the stored records, each replacing the one with its id.
    pub fn hydrate_records(&mut self, records: Vec<InteractionRecord>)
        requires
            old(self).wf(),
        ensures
            final(self).wf(),
            final(self).records() == upsert_all(old(self).records(), record_key(), records_view(records@)),
            final(self).replies() == old(self).replies(),
            final(self).deleted() == old(self).deleted(),
            final(self).tracks() == old(self).tracks(),
            final(self).counter() == old(self).counter(),
    {
        let ghost xs = records_view(records@);
        let mut i: usize = 0;
        while i < records.len()
            invariant
                i <= records@.len(),
                xs == records_view(records@),
                self.wf(),
                self.records() == upsert_all(old(self).records(), record_key(), xs.take(i as int)),
                self.replies() == old(self).replies(),
                self.deleted() == old(self).deleted(),
                self.tracks() == old(self).tracks(),
                self.counter() == old(self).counter(),
            decreases records@.len() - i,
        {
            assert(xs.take(i + 1).drop_last() =~= xs.take(i as int));
            assert(xs.take(i + 1).last() == records@[i as int]@);
            self.commit_record(copy_record(&records[i]));
            i = i + 1;
        }
        assert(xs.take(xs.len() as int) =~= xs);
    }

    /// Loads the stored replies, each replacing the one for its task.
    pub fn hydrate_replies(&mut self, replies: Vec<StructuredReply>)
        requires
            old(self).wf(),
        ensures
            final(self).wf(),
            final(self).replies() == upsert_all(old(self).replies(), reply_key(), replies@),
            final(self).records() == old(self).records(),
            final(self).deleted() == old(self).deleted(),
            final(self).tracks() == old(self).tracks(),
            final(self).counter() == old(self).counter(),
    {
        let mut i: usize = 0;
        while i < replies.len()
            invariant
                i <= replies@.len(),
                self.wf(),
                self.replies() == upsert_all(old(self).replies(), reply_key(), replies@.take(i as int)),
                self.records() == old(self).records(),
                self.deleted() == old(self).deleted(),
                self.tracks() == old(self).tracks(),
                self.counter() == old(self).counter(),
            decreases replies@.len() - i,
        {
            assert(replies@.take(i + 1).drop_last() =~= replies@.take(i as int));
            self.commit_reply(copy_reply(&replies[i]));
            i = i + 1;
        }
        assert(replies@.take(replies@.len() as int) =~= replies@);
    }

    /// Loads the stored provider input states.
    pub fn hydrate_provider_inputs(&mut self, inputs: Vec<ProviderInputState>)
        requires
            old(self).wf(),
        ensures
            final(self).wf(),
            final(self).tracks() == hydrate_tracks(old(self).tracks(), inputs@.map_values(|x: ProviderInputState| x@)),
            final(self).records() == old(self).records(),
            final(self).replies() == old(self).replies(),
            final(self).deleted() == old(self).deleted(),
            final(self).counter() == old(self).counter(),
    {
        let ghost xs = inputs@.map_values(|x: ProviderInputState| x@);
        let mut i: usize = 0;
        while i < inputs.len()
            invariant
                i <= inputs@.len(),
                xs == inputs@.map_values(|x: ProviderInputState| x@),
                self.wf(),
                self.tracks() == hydrate_tracks(old(self).tracks(), xs.take(i as int)),
                self.records() == old(self).records(),
                self.replies() == old(self).replies(),
                self.deleted() == old(self).deleted(),
                self.counter() == old(self).counter(),
            decreases inputs@.len() - i,
        {
            assert(xs.take(i + 1).drop_last() =~= xs.take(i as int));
            assert(xs.take(i + 1).last() == inputs@[i as int]@);
            let input = &inputs[i];
            let (_g, _hw, obs, _old) = self.track(input.session_id.as_str());
            self.set_track(input.session_id.as_str(), Some(input.generation), Some(input.generation), obs, Some(copy_input(input)));
            i = i + 1;
        }
        assert(xs.take(xs.len() as int) =~= xs);
    }
}

impl InteractionState {
    /// Loads what the durable store holds: its records, its replies and its
    /// provider input states.
    pub fn hydrate_from_persistence(&mut self, records: Vec<InteractionRecord>, replies: Vec<StructuredReply>, inputs: Vec<ProviderInputState>)
        requires
            old(self).wf(),
        ensures
            final(self).wf(),
            final(self).records() == upsert_all(old(self).records(), record_key(), records_view(records@)),
            final(self).replies() == upsert_all(old(self).replies(), reply_key(), replies@),
            final(self).tracks() == hydrate_tracks(old(self).tracks(), inputs@.map_values(|x: ProviderInputState| x@)),
            final(self).deleted() == old(self).deleted(),
            final(self).counter() == old(self).counter(),
    {
        self.hydrate_records(records);
        self.hydrate_replies(replies);
        self.hydrate_provider_inputs(inputs);
    }
}

/// An observation of a generation that is neither the current one nor past
/// the high watermark changes nothing and reports the state already held.
pub proof fn law_stale_generations_are_fenced(
    t: TrackView,
    generation: u64,
    state: ProviderInputReadiness,
    evidence: Option<ProviderReadyEvidence>,
    now: Seq<char>,
)
    requires
        t.generation != Some(generation),
        t.tombstone is Some,
        generation <= t.tombstone->0,
        t.tombstone->0 > 0,
    ensures
        record_input_spec(t, generation, state, evidence, now).0 == t,
        t.input is Some ==> record_input_spec(t, generation, state, evidence, now).1 == t.input->0,
{
}

/// After a generation starts, observations of any earlier generation are
/// fenced off: they change nothing the new generation recorded.
pub proof fn law_earlier_generations_are_fenced_after_a_start(
    t: TrackView,
    state: ProviderInputReadiness,
    evidence: Option<ProviderReadyEvidence>,
    now: Seq<char>,
    earlier: u64,
    late_state: ProviderInputReadiness,
    late_evidence: Option<ProviderReadyEvidence>,
    later: Seq<char>,
)
    requires
        ({
            let next = max_spec(unwrap_or_zero(t.generation), unwrap_or_zero(t.tombstone));
            earlier < if next == u64::MAX { u64::MAX } else { (next + 1) as u64 }
        }),
    ensures
        ({
            let next = max_spec(unwrap_or_zero(t.generation), unwrap_or_zero(t.tombstone));
            let generation = if next == u64::MAX { u64::MAX } else { (next + 1) as u64 };
            let started = record_input_spec(TrackView { generation: Some(generation), tombstone: Some(generation), ..t },
                generation, state, evidence, now).0;
            record_input_spec(started, earlier, late_state, late_evidence, later).0 == started
        }),
{
    let next = max_spec(unwrap_or_zero(t.generation), unwrap_or_zero(t.tombstone));
    let generation = if next == u64::MAX { u64::MAX } else { (next + 1) as u64 };
    let started = record_input_spec(TrackView { generation: Some(generation), tombstone: Some(generation), ..t },
        generation, state, evidence, now).0;
    assert(started.generation == Some(generation));
    assert(started.tombstone == Some(generation));
    law_stale_generations_are_fenced(started, earlier, late_state, late_evidence, later);
}

// ---------------------------------------------------------------------------
// Listing the Inbox

/// Record `x` is listed before record `y`: newer first, then the greater id,
/// and records equal in both keep their order.
pub open spec fn notice_order(s: Seq<RecordView>, x: int, y: int) -> bool {
    ||| lex_lt(s[y].created_at, s[x].created_at)
    ||| (s[x].created_at == s[y].created_at && lex_lt(s[y].id, s[x].id))
    ||| (s[x].created_at == s[y].created_at && s[x].id == s[y].id && x < y)
}

/// `order` lists every notification of `s` once, in Inbox order.
pub open spec fn notices_sorted(s: Seq<RecordView>, order: Seq<usize>) -> bool {
    &&& forall|k: int| 0 <= k < order.len() ==> (#[trigger] order[k]) < s.len() && s[order[k] as int].kind == InteractionKind::Notification
    &&& forall|i: int| 0 <= i < s.len() && (#[trigger] s[i]).kind == InteractionKind::Notification ==> order.contains(i as usize)
    &&& forall|a: int, b: int| 0 <= a < b < order.len() ==> notice_order(s, #[trigger] order[a] as int, #[trigger] order[b] as int)
}

/// The page of a listing that starts at `offset` and holds at most `limit`,
/// and whether more follow it.
pub open spec fn page_spec(order: Seq<usize>, offset: int, limit: int) -> (Seq<usize>, bool) {
    let rest = if offset < order.len() { order.skip(offset) } else { Seq::empty() };
    (if rest.len() > limit { rest.take(limit) } else { rest }, rest.len() > limit)
}

proof fn lemma_notice_order(s: Seq<RecordView>, x: int, y: int, z: int)
    ensures
        !notice_order(s, x, x),
        x != y ==> notice_order(s, x, y) || notice_order(s, y, x),
        notice_order(s, x, y) ==> !notice_order(s, y, x),
        notice_order(s, x, y) && notice_order(s, y, z) ==> notice_order(s, x, z),
{
    lemma_lex_facts(s[x].created_at, s[y].created_at, s[z].created_at);
    lemma_lex_facts(s[x].id, s[y].id, s[z].id);
}

fn notice_before(s: &Vec<InteractionRecord>, x: usize, y: usize) -> (r: bool)
    requires
        x < s@.len(),
        y < s@.len(),
    ensures
        r == notice_order(records_view(s@), x as int, y as int),
{
    let a = &s[x];
    let b = &s[y];
    assert(records_view(s@)[x as int] == a@ && records_view(s@)[y as int] == b@);
    if str_lt(b.created_at.as_str(), a.created_at.as_str()) {
        return true;
    }
    if !str_eq(a.created_at.as_str(), b.created_at.as_str()) {
        return false;
    }
    if str_lt(b.id.as_str(), a.id.as_str()) {
        return true;
    }
    str_eq(a.id.as_str(), b.id.as_str()) && x < y
}

impl InteractionState {
    /// The notifications in Inbox order (newest first).
    fn notice_order_indices(&self) -> (r: Vec<usize>)
        ensures
            notices_sorted(self.records(), r@),
    {
        let ghost s = self.records();
        let mut out: Vec<usize> = Vec::new();
        let mut i: usize = 0;
        while i < self.records.len()
            invariant
                i <= self.records@.len(),
                s == self.records(),
                forall|k: int| 0 <= k < out@.len() ==> (#[trigger] out@[k]) < i && s[out@[k] as int].kind == InteractionKind::Notification,
                forall|j: int| 0 <= j < i && (#[trigger] s[j]).kind == InteractionKind::Notification ==> out@.contains(j as usize),
                forall|a: int, b: int| 0 <= a < b < out@.len() ==> notice_order(s, #[trigger] out@[a] as int, #[trigger] out@[b] as int),
            decreases self.records@.len() - i,
        {
            assert(s[i as int] == self.records@[i as int]@);
            if self.records[i].kind == InteractionKind::Notification {
                let mut p: usize = 0;
                while p < out.len() && !notice_before(&self.records, i, out[p])
                    invariant
                        p <= out@.len(),
                        i < self.records@.len(),
                        s == self.records(),
                        forall|k: int| 0 <= k < out@.len() ==> (#[trigger] out@[k]) < i,
                        forall|q: int| 0 <= q < p ==> !notice_order(s, i as int, #[trigger] out@[q] as int),
                    decreases out@.len() - p,
                {
                    p = p + 1;
                }
                let ghost before = out@;
                out.insert(p, i);
                assert forall|a: int, b: int| 0 <= a < b < out@.len() implies notice_order(s, #[trigger] out@[a] as int, #[trigger] out@[b] as int) by {
                    if b < p {
                        assert(out@[a] == before[a] && out@[b] == before[b]);
                    } else if b == p {
                        assert(out@[a] == before[a]);
                        lemma_notice_order(s, before[a] as int, i as int, i as int);
                    } else if a == p {
                        assert(out@[b] == before[b - 1]);
                        assert(notice_order(s, i as int, before[p as int] as int));
                        if b - 1 > p {
                            assert(notice_order(s, before[p as int] as int, before[b - 1] as int));
                            lemma_notice_order(s, i as int, before[p as int] as int, before[b - 1] as int);
                        }
                    } else if a < p {
                        assert(out@[a] == before[a] && out@[b] == before[b - 1]);
                    } else {
                        assert(out@[a] == before[a - 1] && out@[b] == before[b - 1]);
                    }
                }
                assert forall|k: int| 0 <= k < out@.len() implies (#[trigger] out@[k]) < i + 1
                    && s[out@[k] as int].kind == InteractionKind::Notification by {
                    if k < p {
                        assert(out@[k] == before[k]);
                    } else if k > p {
                        assert(out@[k] == before[k - 1]);
                    }
                }
                assert forall|j: int| 0 <= j < i + 1 && (#[trigger] s[j]).kind == InteractionKind::Notification implies out@.contains(j as usize) by {
                    if j < i {
                        let m = choose|m: int| 0 <= m < before.len() && before[m] == j as usize;
                        if m < p {
                            assert(out@[m] == j as usize);
                        } else {
                            assert(out@[m + 1] == j as usize);
                        }
                    } else {
                        assert(out@[p as int] == i);
                    }
                }
            }
            i = i + 1;
        }
        out
    }

    /// One page of the Inbox's notifications, newest first, and whether more follow.
    pub fn inbox_notifications_page(&self, offset: usize, limit: usize) -> (r: (Vec<InteractionRecord>, bool))
        ensures
            exists|order: Seq<usize>| notices_sorted(self.records(), order)
                && records_view(r.0@) == page_spec(order, offset as int, limit as int).0.map_values(|k: usize| self.records()[k as int])
                && r.1 == page_spec(order, offset as int, limit as int).1,
    {
        let order = self.notice_order_indices();
        let ghost page = page_spec(order@, offset as int, limit as int).0;
        let start = if offset < order.len() { offset } else { order.len() };
        let remaining = order.len() - start;
        let count = if remaining > limit { limit } else { remaining };
        assert(page =~= order@.subrange(start as int, (start + count) as int));
        let mut out: Vec<InteractionRecord> = Vec::new();
        let mut k: usize = 0;
        while k < count
            invariant
                k <= count,
                start + count <= order@.len(),
                order@.len() <= usize::MAX,
                notices_sorted(self.records(), order@),
                page == order@.subrange(start as int, (start + count) as int),
                records_view(out@) == page.take(k as int).map_values(|x: usize| self.records()[x as int]),
            decreases count - k,
        {
            let index = order[start + k];
            assert(page[k as int] == index);
            assert(self.records()[index as int] == self.records@[index as int]@);
            let ghost before = records_view(out@);
            out.push(copy_record(&self.records[index]));
            assert(records_view(out@) =~= before.push(self.records()[index as int]));
            assert(page.take(k + 1) =~= page.take(k as int).push(index));
            assert(records_view(out@) =~= page.take(k + 1).map_values(|x: usize| self.records()[x as int]));
            k = k + 1;
        }
        assert(page.take(count as int) =~= page);
        (out, remaining > limit)
    }

    /// The first page of the Inbox's notifications, and whether more follow.
    pub fn inbox_notifications(&self, limit: usize) -> (r: (Vec<InteractionRecord>, bool))
        ensures
            exists|order: Seq<usize>| notices_sorted(self.records(), order)
                && records_view(r.0@) == page_spec(order, 0, limit as int).0.map_values(|k: usize| self.records()[k as int])
                && r.1 == page_spec(order, 0, limit as int).1,
    {
        self.inbox_notifications_page(0, limit)
    }
}

} // verus!
