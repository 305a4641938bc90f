//! The per-agent mailbox: queued messages waiting to be delivered into an
//! agent's terminal, with the identities they are issued under.
use vstd::prelude::*;

use crate::time::rfc3339_instant;

use crate::text::{
    lemma_lex_facts,
    chars_of, fixed_digits, lemma_fixed_digits_order, lemma_fixed_len, lemma_zero_padded_fixed, lex_lt,
    parse_unsigned, parse_unsigned_spec, pow10, push_str_chars, push_zero_padded, str_eq, str_lt,
    into_string, zero_padded,
};

verus! {

/// Terminal records kept per target; older ones are dropped first.
pub const MAX_TERMINAL_RECORDS_PER_TARGET: usize = 64;

#[derive(Debug, Clone, Copy, PartialEq, Eq, Structural)]
pub enum MailboxMessageStatus {
    Pending,
    InFlight,
    Delivered,
    Failed,
}

impl MailboxMessageStatus {
    pub open spec fn terminal(self) -> bool {
        self == MailboxMessageStatus::Delivered || self == MailboxMessageStatus::Failed
    }

    /// Delivered and failed messages are finished.
    pub fn is_terminal(&self) -> (r: bool)
        ensures
            r == self.terminal(),
    {
        *self == MailboxMessageStatus::Delivered || *self == MailboxMessageStatus::Failed
    }
}

#[derive(Debug, Clone, Copy, PartialEq, Eq, Structural)]
pub enum MailboxDeliveryPhase {
    Queued,
    Dispatching,
    Terminal,
}

#[derive(Debug, Clone, Copy, PartialEq, Eq, Structural)]
pub enum MessageInputMode {
    Message,
    Command,
    ApprovalAction,
}

#[derive(Debug, Clone, Copy, PartialEq, Eq, Structural)]
pub enum QueuePolicy {
    QueueIfBusy,
    MailboxOnly,
    LiveOnly,
}

/// The answer a message gives to a pending approval prompt.
#[derive(Debug, Clone, PartialEq, Eq)]
pub enum ApprovalAction {
    Select { option: String },
}

/// Who sent a message.
#[derive(Debug, Clone, PartialEq, Eq)]
pub enum MessageOrigin {
    WardianAgent { session_id: String },
}

pub open spec fn approval_view(a: Option<ApprovalAction>) -> Option<Seq<char>> {
    match a {
        Some(ApprovalAction::Select { option }) => Some(option@),
        None => None,
    }
}

pub open spec fn origin_view(o: Option<MessageOrigin>) -> Option<Seq<char>> {
    match o {
        Some(MessageOrigin::WardianAgent { session_id }) => Some(session_id@),
        None => None,
    }
}

pub open spec fn opt_string_view(o: Option<String>) -> Option<Seq<char>> {
    match o {
        Some(s) => Some(s@),
        None => None,
    }
}

fn copy_opt_string(o: &Option<String>) -> (r: Option<String>)
    ensures
        opt_string_view(r) == opt_string_view(*o),
{
    match o {
        Some(s) => Some(s.clone()),
        None => None,
    }
}

/// What a caller asks to have delivered.
#[derive(Debug, Clone, PartialEq, Eq)]
pub struct MailboxMessageDraft {
    pub interaction_id: String,
    pub target_session_id: String,
    pub body: String,
    pub input_mode: MessageInputMode,
    pub queue_policy: QueuePolicy,
    pub approval_action: Option<ApprovalAction>,
    pub origin: Option<MessageOrigin>,
}

/// A queued message.
#[derive(Debug, Clone, PartialEq, Eq)]
pub struct MailboxMessageRecord {
    pub id: String,
    pub interaction_id: String,
    pub target_session_id: String,
    pub body: String,
    pub input_mode: MessageInputMode,
    pub queue_policy: QueuePolicy,
    pub approval_action: Option<ApprovalAction>,
    pub origin: Option<MessageOrigin>,
    pub created_at: String,
    pub ready_after: Option<String>,
    pub status: MailboxMessageStatus,
    pub phase: MailboxDeliveryPhase,
}

/// A record as plain values.
pub struct RecordView {
    pub id: Seq<char>,
    pub interaction_id: Seq<char>,
    pub target: Seq<char>,
    pub body: Seq<char>,
    pub input_mode: MessageInputMode,
    pub queue_policy: QueuePolicy,
    pub approval: Option<Seq<char>>,
    pub origin: Option<Seq<char>>,
    pub created_at: Seq<char>,
    pub ready_after: Option<Seq<char>>,
    pub status: MailboxMessageStatus,
    pub phase: MailboxDeliveryPhase,
}

impl MailboxMessageRecord {
    pub open spec fn view_of(&self) -> RecordView {
        RecordView {
            id: self.id@,
            interaction_id: self.interaction_id@,
            target: self.target_session_id@,
            body: self.body@,
            input_mode: self.input_mode,
            queue_policy: self.queue_policy,
            approval: approval_view(self.approval_action),
            origin: origin_view(self.origin),
            created_at: self.created_at@,
            ready_after: opt_string_view(self.ready_after),
            status: self.status,
            phase: self.phase,
        }
    }

    /// A copy of the record.
    pub fn duplicate(&self) -> (r: Self)
        ensures
            r.view_of() == self.view_of(),
    {
        MailboxMessageRecord {
            id: self.id.clone(),
            interaction_id: self.interaction_id.clone(),
            target_session_id: self.target_session_id.clone(),
            body: self.body.clone(),
            input_mode: self.input_mode,
            queue_policy: self.queue_policy,
            approval_action: match &self.approval_action {
                Some(ApprovalAction::Select { option }) => Some(ApprovalAction::Select { option: option.clone() }),
                None => None,
            },
            origin: match &self.origin {
                Some(MessageOrigin::WardianAgent { session_id }) => Some(MessageOrigin::WardianAgent { session_id: session_id.clone() }),
                None => None,
            },
            created_at: self.created_at.clone(),
            ready_after: copy_opt_string(&self.ready_after),
            status: self.status,
            phase: self.phase,
        }
    }
}

pub open spec fn record_views(v: Seq<MailboxMessageRecord>) -> Seq<RecordView> {
    v.map_values(|r: MailboxMessageRecord| r.view_of())
}

// ---------------------------------------------------------------------------
// Message identities

/// `{:013}` of a signed millisecond count: sign-aware zero padding.
pub open spec fn millis_text(m: int) -> Seq<char> {
    if m < 0 {
        seq!['-'] + zero_padded((-m) as nat, 12)
    } else {
        zero_padded(m as nat, 13)
    }
}

/// `msg_{millis:013}_{counter:06}`.
pub open spec fn message_id_text(millis: int, counter: nat) -> Seq<char> {
    "msg_"@ + millis_text(millis) + "_"@ + zero_padded(counter, 6)
}

/// The allocator after issuing one identity at clock reading `now`: a clock
/// that did not advance past the last issue bumps the counter (saturating);
/// an advanced clock restarts it at zero.
pub open spec fn next_id_state(last: i64, counter: u64, now: i64) -> (i64, u64) {
    let millis = if now > last { now } else { last };
    if millis == last {
        (last, if counter == u64::MAX { u64::MAX } else { (counter + 1) as u64 })
    } else {
        (millis, 0u64)
    }
}

/// What Rust's `FromStr` for `i64` yields: an optional sign, then digits that fit.
pub open spec fn parse_i64_spec(s: Seq<char>) -> Option<int> {
    if s.len() > 0 && s[0] == '-' {
        let d = s.drop_first();
        if d.len() > 0 && d[0] != '+' {
            match parse_unsigned_spec(d, 0x8000_0000_0000_0000) {
                Some(v) => Some(-v),
                None => None,
            }
        } else {
            None
        }
    } else {
        match parse_unsigned_spec(s, i64::MAX as nat) {
            Some(v) => Some(v as int),
            None => None,
        }
    }
}

fn parse_i64(s: &[char]) -> (r: Option<i64>)
    ensures
        match r {
            Some(v) => parse_i64_spec(s@) == Some(v as int),
            None => parse_i64_spec(s@) is None,
        },
{
    if s.len() > 0 && s[0] == '-' {
        let d = &s[1..s.len()];
        assert(d@ =~= s@.drop_first());
        if d.len() > 0 && d[0] != '+' {
            match parse_unsigned(d, 0x8000_0000_0000_0000u64) {
                Some(v) => {
                    if v == 0x8000_0000_0000_0000u64 {
                        Some(i64::MIN)
                    } else {
                        Some(0i64 - (v as i64))
                    }
                },
                None => None,
            }
        } else {
            None
        }
    } else {
        match parse_unsigned(s, i64::MAX as u64) {
            Some(v) => Some(v as i64),
            None => None,
        }
    }
}

/// The millisecond and counter fields of `msg_<millis>_<counter>`, split at
/// the first underscore after the prefix.
pub open spec fn parse_message_id(id: Seq<char>) -> Option<(int, nat)> {
    if id.len() >= 4 && id.take(4) == "msg_"@ {
        let rest = id.skip(4);
        if exists|p: int| 0 <= p < rest.len() && rest[p] == '_' {
            let p = choose|p: int| 0 <= p < rest.len() && rest[p] == '_' && forall|q: int| 0 <= q < p ==> rest[q] != '_';
            match (parse_i64_spec(rest.take(p)), parse_unsigned_spec(rest.skip(p + 1), u64::MAX as nat)) {
                (Some(m), Some(c)) => Some((m, c)),
                _ => None,
            }
        } else {
            None
        }
    } else {
        None
    }
}

/// The allocator after seeing an existing identity: it moves forward to it,
/// never back.
pub open spec fn observe_state(last: i64, counter: u64, id: Seq<char>) -> (i64, u64) {
    match parse_message_id(id) {
        Some((m, c)) => if m > last {
            (m as i64, c as u64)
        } else if m == last {
            (last, if c > counter { c as u64 } else { counter })
        } else {
            (last, counter)
        },
        None => (last, counter),
    }
}

pub(crate) fn push_millis(out: &mut Vec<char>, m: i64)
    ensures
        final(out)@ == old(out)@ + millis_text(m as int),
{
    if m < 0 {
        out.push('-');
        let a: u64 = if m == i64::MIN { 0x8000_0000_0000_0000u64 } else { (0i64 - m) as u64 };
        let ghost mid = out@;
        push_zero_padded(out, a, 12);
        assert(out@ =~= old(out)@ + millis_text(m as int));
    } else {
        push_zero_padded(out, m as u64, 13);
    }
}

fn format_message_id(millis: i64, counter: u64) -> (r: String)
    ensures
        r@ == message_id_text(millis as int, counter as nat),
{
    let mut out: Vec<char> = Vec::new();
    push_str_chars(&mut out, "msg_");
    push_millis(&mut out, millis);
    out.push('_');
    push_zero_padded(&mut out, counter, 6);
    proof { reveal_strlit("_"); }
    assert(out@ =~= message_id_text(millis as int, counter as nat));
    into_string(out)
}

// ---------------------------------------------------------------------------
// The mailbox

/// The queued messages and the identity allocator.
#[derive(Debug)]
pub struct MailboxState {
    records: Vec<MailboxMessageRecord>,
    last_millis: i64,
    counter: u64,
}

impl Default for MailboxState {
    fn default() -> (r: Self)
        ensures
            r.records_view() == Seq::<RecordView>::empty(),
            r.allocator() == (0i64, 0u64),
    {
        MailboxState::new()
    }
}

impl MailboxState {
    pub closed spec fn records_view(&self) -> Seq<RecordView> {
        record_views(self.records@)
    }

    /// The last millisecond issued and the counter within it.
    pub closed spec fn allocator(&self) -> (i64, u64) {
        (self.last_millis, self.counter)
    }

    pub fn new() -> (r: Self)
        ensures
            r.records_view() == Seq::<RecordView>::empty(),
            r.allocator() == (0i64, 0u64),
    {
        let r = MailboxState { records: Vec::new(), last_millis: 0, counter: 0 };
        assert(record_views(r.records@) =~= Seq::<RecordView>::empty());
        r
    }

    /// Issues the next identity for clock reading `now_millis`.
    pub fn next_message_id(&mut self, now_millis: i64) -> (r: String)
        ensures
            final(self).allocator() == next_id_state(old(self).allocator().0, old(self).allocator().1, now_millis),
            r@ == message_id_text(final(self).allocator().0 as int, final(self).allocator().1 as nat),
            final(self).records_view() == old(self).records_view(),
    {
        let millis = if now_millis > self.last_millis { now_millis } else { self.last_millis };
        if millis == self.last_millis {
            self.counter = self.counter.saturating_add(1);
        } else {
            self.last_millis = millis;
            self.counter = 0;
        }
        format_message_id(millis, self.counter)
    }

    /// Moves the allocator past an identity that is already in use.
    pub fn observe_message_id(&mut self, id: &str)
        ensures
            final(self).allocator() == observe_state(old(self).allocator().0, old(self).allocator().1, id@),
            final(self).records_view() == old(self).records_view(),
    {
        proof { reveal_strlit("msg_"); }
        let cs = chars_of(id);
        let prefix = chars_of("msg_");
        if !crate::text::starts_with_exec(cs.as_slice(), prefix.as_slice()) {
            assert(!(cs@.len() >= 4 && cs@.take(4) == "msg_"@));
            return;
        }
        assert(cs@.take(4) =~= "msg_"@);
        let rest = &cs.as_slice()[4..cs.len()];
        assert(rest@ =~= cs@.skip(4));
        let mut p: usize = 0;
        while p < rest.len() && rest[p] != '_'
            invariant
                p <= rest@.len(),
                forall|q: int| 0 <= q < p ==> rest@[q] != '_',
            decreases rest@.len() - p,
        {
            p = p + 1;
        }
        if p == rest.len() {
            assert(!(exists|q: int| 0 <= q < rest@.len() && rest@[q] == '_'));
            return;
        }
        proof {
            let c = choose|q: int| 0 <= q < rest@.len() && rest@[q] == '_' && forall|t: int| 0 <= t < q ==> rest@[t] != '_';
            assert(rest@[p as int] == '_');
            if c < p {
                assert(rest@[c] != '_');
            } else if c > p {
                assert(rest@[p as int] != '_');
            }
        }
        let millis_part = &rest[0..p];
        let counter_part = &rest[p + 1..rest.len()];
        assert(millis_part@ =~= rest@.take(p as int));
        assert(counter_part@ =~= rest@.skip(p + 1));
        let millis = match parse_i64(millis_part) {
            Some(m) => m,
            None => return,
        };
        let counter = match parse_unsigned(counter_part, u64::MAX) {
            Some(c) => c,
            None => return,
        };
        if millis > self.last_millis {
            self.last_millis = millis;
            self.counter = counter;
        } else if millis == self.last_millis {
            if counter > self.counter {
                self.counter = counter;
            }
        }
    }
}

// ---------------------------------------------------------------------------
// Record bookkeeping

/// The records addressed to `target`, in order.
pub open spec fn records_for(s: Seq<RecordView>, target: Seq<char>) -> Seq<RecordView>
    decreases s.len(),
{
    if s.len() == 0 {
        Seq::empty()
    } else {
        let p = records_for(s.drop_last(), target);
        if s.last().target == target { p.push(s.last()) } else { p }
    }
}

/// The records not addressed to `target`, in order.
pub open spec fn records_not_for(s: Seq<RecordView>, target: Seq<char>) -> Seq<RecordView>
    decreases s.len(),
{
    if s.len() == 0 {
        Seq::empty()
    } else {
        let p = records_not_for(s.drop_last(), target);
        if s.last().target != target { p.push(s.last()) } else { p }
    }
}

/// `i` is the first record with identity `id`.
pub open spec fn first_with_id(s: Seq<RecordView>, id: Seq<char>, i: int) -> bool {
    0 <= i < s.len() && s[i].id == id && forall|j: int| 0 <= j < i ==> #[trigger] s[j].id != id
}

pub open spec fn pending_for(r: RecordView, target: Seq<char>) -> bool {
    r.target == target && r.status == MailboxMessageStatus::Pending
}

/// `i` is the first pending record addressed to `target`.
pub open spec fn first_pending(s: Seq<RecordView>, target: Seq<char>, i: int) -> bool {
    0 <= i < s.len() && pending_for(s[i], target) && forall|j: int| 0 <= j < i ==> !pending_for(#[trigger] s[j], target)
}

pub open spec fn terminal_for(r: RecordView, target: Seq<char>) -> bool {
    r.target == target && r.status.terminal()
}

/// How many finished records `target` has.
pub open spec fn terminal_count(s: Seq<RecordView>, target: Seq<char>) -> nat
    decreases s.len(),
{
    if s.len() == 0 {
        0
    } else {
        terminal_count(s.drop_last(), target) + if terminal_for(s.last(), target) { 1nat } else { 0nat }
    }
}

/// The records with the first `n` finished records of `target` dropped.
pub open spec fn drop_oldest_terminal(s: Seq<RecordView>, target: Seq<char>, n: nat) -> Seq<RecordView>
    decreases s.len(),
{
    if s.len() == 0 {
        s
    } else if n > 0 && terminal_for(s[0], target) {
        drop_oldest_terminal(s.drop_first(), target, (n - 1) as nat)
    } else {
        seq![s[0]] + drop_oldest_terminal(s.drop_first(), target, n)
    }
}

/// Compaction keeps the newest finished records of `target`, at most the cap.
pub open spec fn compact_spec(s: Seq<RecordView>, target: Seq<char>) -> Seq<RecordView> {
    let count = terminal_count(s, target);
    if count > MAX_TERMINAL_RECORDS_PER_TARGET {
        drop_oldest_terminal(s, target, (count - MAX_TERMINAL_RECORDS_PER_TARGET) as nat)
    } else {
        s
    }
}

pub open spec fn with_status(r: RecordView, status: MailboxMessageStatus, phase: MailboxDeliveryPhase) -> RecordView {
    RecordView { status, phase, ..r }
}

fn replace_at(v: &mut Vec<MailboxMessageRecord>, i: usize, x: MailboxMessageRecord)
    requires
        i < old(v)@.len(),
    ensures
        record_views(final(v)@) == record_views(old(v)@).update(i as int, x.view_of()),
{
    let ghost before = v@;
    v.remove(i);
    v.insert(i, x);
    assert(record_views(v@) =~= record_views(before).update(i as int, x.view_of()));
}

fn copy_records(v: &Vec<MailboxMessageRecord>) -> (r: Vec<MailboxMessageRecord>)
    ensures
        record_views(r@) == record_views(v@),
{
    let mut out: Vec<MailboxMessageRecord> = Vec::new();
    let mut i: usize = 0;
    while i < v.len()
        invariant
            i <= v@.len(),
            record_views(out@) == record_views(v@).take(i as int),
        decreases v@.len() - i,
    {
        let ghost before = out@;
        out.push(v[i].duplicate());
        assert(record_views(out@) =~= record_views(before).push(v@[i as int].view_of()));
        assert(record_views(out@) =~= record_views(v@).take(i + 1));
        i = i + 1;
    }
    assert(record_views(v@).take(v@.len() as int) =~= record_views(v@));
    out
}

impl MailboxState {
    fn find_id(&self, id: &str) -> (r: Option<usize>)
        ensures
            match r {
                Some(i) => first_with_id(self.records_view(), id@, i as int),
                None => forall|j: int| 0 <= j < self.records_view().len() ==> #[trigger] self.records_view()[j].id != id@,
            },
    {
        let ghost v = self.records_view();
        let mut i: usize = 0;
        while i < self.records.len()
            invariant
                i <= self.records@.len(),
                v == record_views(self.records@),
                forall|j: int| 0 <= j < i ==> #[trigger] v[j].id != id@,
            decreases self.records@.len() - i,
        {
            if str_eq(self.records[i].id.as_str(), id) {
                return Some(i);
            }
            i = i + 1;
        }
        None
    }

    fn find_pending(&self, target: &str) -> (r: Option<usize>)
        ensures
            match r {
                Some(i) => first_pending(self.records_view(), target@, i as int),
                None => forall|j: int| 0 <= j < self.records_view().len() ==> !pending_for(#[trigger] self.records_view()[j], target@),
            },
    {
        let ghost v = self.records_view();
        let mut i: usize = 0;
        while i < self.records.len()
            invariant
                i <= self.records@.len(),
                v == record_views(self.records@),
                forall|j: int| 0 <= j < i ==> !pending_for(#[trigger] v[j], target@),
            decreases self.records@.len() - i,
        {
            if str_eq(self.records[i].target_session_id.as_str(), target)
                && self.records[i].status == MailboxMessageStatus::Pending {
                return Some(i);
            }
            i = i + 1;
        }
        None
    }

    /// Queues a message under identity `id`, stamped `created_at`.
    pub fn push_queued(&mut self, draft: MailboxMessageDraft, id: String, created_at: String) -> (r: MailboxMessageRecord)
        ensures
            r.view_of() == (RecordView {
                id: id@,
                interaction_id: draft.interaction_id@,
                target: draft.target_session_id@,
                body: draft.body@,
                input_mode: draft.input_mode,
                queue_policy: draft.queue_policy,
                approval: approval_view(draft.approval_action),
                origin: origin_view(draft.origin),
                created_at: created_at@,
                ready_after: None,
                status: MailboxMessageStatus::Pending,
                phase: MailboxDeliveryPhase::Queued,
            }),
            final(self).records_view() == old(self).records_view().push(r.view_of()),
            final(self).allocator() == old(self).allocator(),
    {
        let record = MailboxMessageRecord {
            id,
            interaction_id: draft.interaction_id,
            target_session_id: draft.target_session_id,
            body: draft.body,
            input_mode: draft.input_mode,
            queue_policy: draft.queue_policy,
            approval_action: draft.approval_action,
            origin: draft.origin,
            created_at,
            ready_after: None,
            status: MailboxMessageStatus::Pending,
            phase: MailboxDeliveryPhase::Queued,
        };
        let out = record.duplicate();
        let ghost before = self.records@;
        self.records.push(record);
        assert(record_views(self.records@) =~= record_views(before).push(out.view_of()));
        out
    }

    /// Queues a message, its identity issued at clock reading `now_millis` and
    /// its creation stamped `created_at`.
    pub fn enqueue_at(&mut self, draft: MailboxMessageDraft, now_millis: i64, created_at: String) -> (r: MailboxMessageRecord)
        ensures
            final(self).allocator() == next_id_state(old(self).allocator().0, old(self).allocator().1, now_millis),
            r.view_of() == (RecordView {
                id: message_id_text(final(self).allocator().0 as int, final(self).allocator().1 as nat),
                interaction_id: draft.interaction_id@,
                target: draft.target_session_id@,
                body: draft.body@,
                input_mode: draft.input_mode,
                queue_policy: draft.queue_policy,
                approval: approval_view(draft.approval_action),
                origin: origin_view(draft.origin),
                created_at: created_at@,
                ready_after: None,
                status: MailboxMessageStatus::Pending,
                phase: MailboxDeliveryPhase::Queued,
            }),
            final(self).records_view() == old(self).records_view().push(r.view_of()),
    {
        let id = self.next_message_id(now_millis);
        self.push_queued(draft, id, created_at)
    }

    /// Every record, in queue order.
    pub fn all(&self) -> (r: Vec<MailboxMessageRecord>)
        ensures
            record_views(r@) == self.records_view(),
    {
        copy_records(&self.records)
    }

    /// The records addressed to one agent, in queue order.
    pub fn list_for_target(&self, target_session_id: &str) -> (r: Vec<MailboxMessageRecord>)
        ensures
            record_views(r@) == records_for(self.records_view(), target_session_id@),
    {
        let ghost v = self.records_view();
        let mut out: Vec<MailboxMessageRecord> = Vec::new();
        let mut i: usize = 0;
        while i < self.records.len()
            invariant
                i <= self.records@.len(),
                v == record_views(self.records@),
                record_views(out@) == records_for(v.take(i as int), target_session_id@),
            decreases self.records@.len() - i,
        {
            let ghost before = out@;
            if str_eq(self.records[i].target_session_id.as_str(), target_session_id) {
                out.push(self.records[i].duplicate());
                assert(record_views(out@) =~= record_views(before).push(v[i as int]));
            }
            assert(v.take(i + 1).drop_last() =~= v.take(i as int));
            i = i + 1;
        }
        assert(v.take(v.len() as int) =~= v);
        out
    }

    /// Sets when the first record with identity `id` may be delivered.
    pub fn set_ready_after(&mut self, id: &str, ready_after: Option<String>) -> (r: Option<MailboxMessageRecord>)
        ensures
            final(self).allocator() == old(self).allocator(),
            match r {
                Some(x) => exists|i: int| first_with_id(old(self).records_view(), id@, i)
                    && x.view_of() == (RecordView { ready_after: opt_string_view(ready_after), ..old(self).records_view()[i] })
                    && final(self).records_view() == old(self).records_view().update(i, x.view_of()),
                None => (forall|j: int| 0 <= j < old(self).records_view().len() ==> #[trigger] old(self).records_view()[j].id != id@)
                    && final(self).records_view() == old(self).records_view(),
            },
    {
        let i = match self.find_id(id) {
            Some(i) => i,
            None => return None,
        };
        let mut x = self.records[i].duplicate();
        x.ready_after = ready_after;
        let out = x.duplicate();
        replace_at(&mut self.records, i, x);
        Some(out)
    }

    /// The first pending record addressed to one agent.
    pub fn next_pending_for_target(&self, target_session_id: &str) -> (r: Option<MailboxMessageRecord>)
        ensures
            match r {
                Some(x) => exists|i: int| first_pending(self.records_view(), target_session_id@, i)
                    && x.view_of() == self.records_view()[i],
                None => forall|j: int| 0 <= j < self.records_view().len()
                    ==> !pending_for(#[trigger] self.records_view()[j], target_session_id@),
            },
    {
        match self.find_pending(target_session_id) {
            Some(i) => Some(self.records[i].duplicate()),
            None => None,
        }
    }

    /// Marks the first pending record of one agent as being dispatched and
    /// hands it out.
    pub fn take_next_pending_for_target(&mut self, target_session_id: &str) -> (r: Option<MailboxMessageRecord>)
        ensures
            final(self).allocator() == old(self).allocator(),
            match r {
                Some(x) => exists|i: int| first_pending(old(self).records_view(), target_session_id@, i)
                    && x.view_of() == with_status(old(self).records_view()[i], MailboxMessageStatus::InFlight, MailboxDeliveryPhase::Dispatching)
                    && final(self).records_view() == old(self).records_view().update(i, x.view_of()),
                None => (forall|j: int| 0 <= j < old(self).records_view().len()
                    ==> !pending_for(#[trigger] old(self).records_view()[j], target_session_id@))
                    && final(self).records_view() == old(self).records_view(),
            },
    {
        let i = match self.find_pending(target_session_id) {
            Some(i) => i,
            None => return None,
        };
        let mut x = self.records[i].duplicate();
        x.status = MailboxMessageStatus::InFlight;
        x.phase = MailboxDeliveryPhase::Dispatching;
        let out = x.duplicate();
        replace_at(&mut self.records, i, x);
        Some(out)
    }

    /// Puts the first record with identity `id` back in the queue for a retry.
    pub fn mark_pending(&mut self, id: &str) -> (r: Option<MailboxMessageRecord>)
        ensures
            final(self).allocator() == old(self).allocator(),
            match r {
                Some(x) => exists|i: int| first_with_id(old(self).records_view(), id@, i)
                    && x.view_of() == with_status(old(self).records_view()[i], MailboxMessageStatus::Pending, MailboxDeliveryPhase::Queued)
                    && final(self).records_view() == old(self).records_view().update(i, x.view_of()),
                None => (forall|j: int| 0 <= j < old(self).records_view().len() ==> #[trigger] old(self).records_view()[j].id != id@)
                    && final(self).records_view() == old(self).records_view(),
            },
    {
        let i = match self.find_id(id) {
            Some(i) => i,
            None => return None,
        };
        let mut x = self.records[i].duplicate();
        x.status = MailboxMessageStatus::Pending;
        x.phase = MailboxDeliveryPhase::Queued;
        let out = x.duplicate();
        replace_at(&mut self.records, i, x);
        Some(out)
    }

    /// Drops the oldest finished records of `target` beyond the cap.
    fn compact_terminal_records_for_target(&mut self, target: &str)
        ensures
            final(self).records_view() == compact_spec(old(self).records_view(), target@),
            final(self).allocator() == old(self).allocator(),
    {
        let ghost v = self.records_view();
        let mut count: usize = 0;
        let mut i: usize = 0;
        while i < self.records.len()
            invariant
                i <= self.records@.len(),
                v == record_views(self.records@),
                count == terminal_count(v.take(i as int), target@),
                count <= i,
            decreases self.records@.len() - i,
        {
            assert(v.take(i + 1).drop_last() =~= v.take(i as int));
            if str_eq(self.records[i].target_session_id.as_str(), target) && self.records[i].status.is_terminal() {
                count = count + 1;
            }
            i = i + 1;
        }
        assert(v.take(v.len() as int) =~= v);
        if count <= MAX_TERMINAL_RECORDS_PER_TARGET {
            return;
        }
        let mut remove_count: usize = count - MAX_TERMINAL_RECORDS_PER_TARGET;
        let ghost n = remove_count as nat;
        let mut kept: Vec<MailboxMessageRecord> = Vec::new();
        let mut old_records: Vec<MailboxMessageRecord> = Vec::new();
        std::mem::swap(&mut old_records, &mut self.records);
        let mut j: usize = 0;
        assert(v.skip(0) =~= v);
        while j < old_records.len()
            invariant
                j <= old_records@.len(),
                v == record_views(old_records@),
                record_views(kept@) + drop_oldest_terminal(v.skip(j as int), target@, remove_count as nat)
                    == drop_oldest_terminal(v, target@, n),
            decreases old_records@.len() - j,
        {
            let ghost rest = v.skip(j as int);
            assert(rest.drop_first() =~= v.skip(j + 1));
            assert(rest[0] == v[j as int]);
            let drop = remove_count > 0 && str_eq(old_records[j].target_session_id.as_str(), target)
                && old_records[j].status.is_terminal();
            if drop {
                remove_count = remove_count - 1;
            } else {
                let ghost before = kept@;
                kept.push(old_records[j].duplicate());
                assert(record_views(kept@) =~= record_views(before).push(v[j as int]));
                assert(record_views(kept@) + drop_oldest_terminal(v.skip(j + 1), target@, remove_count as nat)
                    =~= record_views(before) + (seq![v[j as int]] + drop_oldest_terminal(v.skip(j + 1), target@, remove_count as nat)));
            }
            j = j + 1;
        }
        assert(v.skip(j as int).len() == 0);
        assert(record_views(kept@) =~= drop_oldest_terminal(v, target@, n));
        self.records = kept;
    }

    /// Finishes the first record with identity `id` with `status`, then
    /// compacts that record's agent.
    fn mark_terminal(&mut self, id: &str, status: MailboxMessageStatus) -> (r: Option<MailboxMessageRecord>)
        requires
            status.terminal(),
        ensures
            final(self).allocator() == old(self).allocator(),
            match r {
                Some(x) => exists|i: int| first_with_id(old(self).records_view(), id@, i)
                    && x.view_of() == with_status(old(self).records_view()[i], status, MailboxDeliveryPhase::Terminal)
                    && final(self).records_view() == compact_spec(old(self).records_view().update(i, x.view_of()), x.view_of().target),
                None => (forall|j: int| 0 <= j < old(self).records_view().len() ==> #[trigger] old(self).records_view()[j].id != id@)
                    && final(self).records_view() == old(self).records_view(),
            },
    {
        let i = match self.find_id(id) {
            Some(i) => i,
            None => return None,
        };
        let mut x = self.records[i].duplicate();
        x.status = status;
        x.phase = MailboxDeliveryPhase::Terminal;
        let out = x.duplicate();
        replace_at(&mut self.records, i, x);
        self.compact_terminal_records_for_target(out.target_session_id.as_str());
        Some(out)
    }

    /// Records that the first record with identity `id` was delivered.
    pub fn mark_delivered(&mut self, id: &str) -> (r: Option<MailboxMessageRecord>)
        ensures
            final(self).allocator() == old(self).allocator(),
            match r {
                Some(x) => exists|i: int| first_with_id(old(self).records_view(), id@, i)
                    && x.view_of() == with_status(old(self).records_view()[i], MailboxMessageStatus::Delivered, MailboxDeliveryPhase::Terminal)
                    && final(self).records_view() == compact_spec(old(self).records_view().update(i, x.view_of()), x.view_of().target),
                None => (forall|j: int| 0 <= j < old(self).records_view().len() ==> #[trigger] old(self).records_view()[j].id != id@)
                    && final(self).records_view() == old(self).records_view(),
            },
    {
        self.mark_terminal(id, MailboxMessageStatus::Delivered)
    }

    /// Records that delivering the first record with identity `id` failed.
    pub fn mark_failed(&mut self, id: &str) -> (r: Option<MailboxMessageRecord>)
        ensures
            final(self).allocator() == old(self).allocator(),
            match r {
                Some(x) => exists|i: int| first_with_id(old(self).records_view(), id@, i)
                    && x.view_of() == with_status(old(self).records_view()[i], MailboxMessageStatus::Failed, MailboxDeliveryPhase::Terminal)
                    && final(self).records_view() == compact_spec(old(self).records_view().update(i, x.view_of()), x.view_of().target),
                None => (forall|j: int| 0 <= j < old(self).records_view().len() ==> #[trigger] old(self).records_view()[j].id != id@)
                    && final(self).records_view() == old(self).records_view(),
            },
    {
        self.mark_terminal(id, MailboxMessageStatus::Failed)
    }

    /// Takes the first record with identity `id` out of the mailbox.
    pub fn remove(&mut self, id: &str) -> (r: Option<MailboxMessageRecord>)
        ensures
            final(self).allocator() == old(self).allocator(),
            match r {
                Some(x) => exists|i: int| first_with_id(old(self).records_view(), id@, i)
                    && x.view_of() == old(self).records_view()[i]
                    && final(self).records_view() == old(self).records_view().remove(i),
                None => (forall|j: int| 0 <= j < old(self).records_view().len() ==> #[trigger] old(self).records_view()[j].id != id@)
                    && final(self).records_view() == old(self).records_view(),
            },
    {
        let i = match self.find_id(id) {
            Some(i) => i,
            None => return None,
        };
        let ghost before = self.records@;
        let x = self.records.remove(i);
        assert(record_views(self.records@) =~= record_views(before).remove(i as int));
        Some(x)
    }

    /// Drops every record addressed to one agent and says how many there were.
    pub fn remove_for_target(&mut self, target_session_id: &str) -> (r: usize)
        ensures
            final(self).allocator() == old(self).allocator(),
            final(self).records_view() == records_not_for(old(self).records_view(), target_session_id@),
            r == old(self).records_view().len() - final(self).records_view().len(),
    {
        let ghost v = self.records_view();
        let original_len = self.records.len();
        let mut kept: Vec<MailboxMessageRecord> = Vec::new();
        let mut old_records: Vec<MailboxMessageRecord> = Vec::new();
        std::mem::swap(&mut old_records, &mut self.records);
        let mut i: usize = 0;
        while i < old_records.len()
            invariant
                i <= old_records@.len(),
                v == record_views(old_records@),
                record_views(kept@) == records_not_for(v.take(i as int), target_session_id@),
                kept@.len() <= i,
            decreases old_records@.len() - i,
        {
            let ghost before = kept@;
            if !str_eq(old_records[i].target_session_id.as_str(), target_session_id) {
                kept.push(old_records[i].duplicate());
                assert(record_views(kept@) =~= record_views(before).push(v[i as int]));
            }
            assert(v.take(i + 1).drop_last() =~= v.take(i as int));
            i = i + 1;
        }
        assert(v.take(v.len() as int) =~= v);
        self.records = kept;
        original_len - self.records.len()
    }
}

// ---------------------------------------------------------------------------
// The clock, and restoring from the durable store

/// Calls `chrono::Utc::now()` and takes its `timestamp_millis()`. The clock is
/// read, so nothing is said of the value.
#[verifier::external_body]
pub(crate) fn clock_millis() -> (r: i64) {
    chrono::Utc::now().timestamp_millis()
}

/// Calls `chrono::Utc::now()` and writes it with
/// `to_rfc3339_opts(SecondsFormat::Millis, true)`. The clock is read, so the
/// instant is not stated; the text is an RFC 3339 timestamp, which
/// `DateTime::parse_from_rfc3339` reads back.
#[verifier::external_body]
pub(crate) fn clock_rfc3339_millis() -> (r: String)
    ensures
        rfc3339_instant(r@) is Some,
{
    chrono::Utc::now().to_rfc3339_opts(chrono::SecondsFormat::Millis, true)
}

/// `a` sorts before `b`: by creation stamp, then by identity.
pub open spec fn record_before(a: RecordView, b: RecordView) -> bool {
    lex_lt(a.created_at, b.created_at) || (a.created_at == b.created_at && lex_lt(a.id, b.id))
}

/// `x` inserted into `s` after every record it does not sort before.
pub open spec fn insert_sorted(s: Seq<RecordView>, x: RecordView) -> Seq<RecordView>
    decreases s.len(),
{
    if s.len() == 0 {
        seq![x]
    } else if record_before(x, s.last()) {
        insert_sorted(s.drop_last(), x).push(s.last())
    } else {
        s.push(x)
    }
}

/// The records in stable order by creation stamp, then identity.
pub open spec fn sort_records(s: Seq<RecordView>) -> Seq<RecordView>
    decreases s.len(),
{
    if s.len() == 0 {
        Seq::empty()
    } else {
        insert_sorted(sort_records(s.drop_last()), s.last())
    }
}

/// The allocator after seeing each identity in turn.
pub open spec fn observe_all(last: i64, counter: u64, s: Seq<RecordView>) -> (i64, u64)
    decreases s.len(),
{
    if s.len() == 0 {
        (last, counter)
    } else {
        let (l, c) = observe_all(last, counter, s.drop_last());
        observe_state(l, c, s.last().id)
    }
}

fn record_before_exec(a: &MailboxMessageRecord, b: &MailboxMessageRecord) -> (r: bool)
    ensures
        r == record_before(a.view_of(), b.view_of()),
{
    str_lt(a.created_at.as_str(), b.created_at.as_str())
        || (str_eq(a.created_at.as_str(), b.created_at.as_str()) && str_lt(a.id.as_str(), b.id.as_str()))
}

fn sorted_records(records: Vec<MailboxMessageRecord>) -> (r: Vec<MailboxMessageRecord>)
    ensures
        record_views(r@) == sort_records(record_views(records@)),
{
    let ghost v = record_views(records@);
    let mut out: Vec<MailboxMessageRecord> = Vec::new();
    let mut i: usize = 0;
    while i < records.len()
        invariant
            i <= records@.len(),
            v == record_views(records@),
            record_views(out@) == sort_records(v.take(i as int)),
        decreases records@.len() - i,
    {
        let x = records[i].duplicate();
        let ghost o = record_views(out@);
        let mut j: usize = out.len();
        assert(o.skip(j as int) =~= Seq::<RecordView>::empty());
        assert(o.take(j as int) =~= o);
        while j > 0 && record_before_exec(&x, &out[j - 1])
            invariant
                j <= out@.len(),
                o == record_views(out@),
                insert_sorted(o, x.view_of()) == insert_sorted(o.take(j as int), x.view_of()) + o.skip(j as int),
                forall|k: int| j <= k < o.len() ==> record_before(x.view_of(), #[trigger] o[k]),
            decreases j,
        {
            assert(o.take(j as int).drop_last() =~= o.take(j - 1));
            assert(o.take(j as int).last() == o[j - 1]);
            assert(o.skip(j - 1) =~= seq![o[j - 1]] + o.skip(j as int));
            j = j - 1;
        }
        proof {
            if j > 0 {
                assert(o.take(j as int).last() == o[j - 1]);
                assert(insert_sorted(o.take(j as int), x.view_of()) == o.take(j as int).push(x.view_of()));
            } else {
                assert(insert_sorted(o.take(0), x.view_of()) == seq![x.view_of()]);
            }
        }
        let ghost before = out@;
        out.insert(j, x);
        proof {
            assert(record_views(out@) =~= o.take(j as int) + seq![x.view_of()] + o.skip(j as int));
            assert(v.take(i + 1).drop_last() =~= v.take(i as int));
            assert(v.take(i + 1).last() == x.view_of());
            assert(record_views(out@) =~= insert_sorted(o, x.view_of()));
        }
        i = i + 1;
    }
    assert(v.take(v.len() as int) =~= v);
    out
}

impl MailboxState {
    /// Queues a message under an identity issued now.
    pub fn enqueue(&mut self, draft: MailboxMessageDraft) -> (r: MailboxMessageRecord)
        ensures
            exists|now: i64| final(self).allocator() == next_id_state(old(self).allocator().0, old(self).allocator().1, now),
            r.view_of().id == message_id_text(final(self).allocator().0 as int, final(self).allocator().1 as nat),
            r.view_of().target == draft.target_session_id@,
            r.view_of().interaction_id == draft.interaction_id@,
            r.view_of().body == draft.body@,
            r.view_of().input_mode == draft.input_mode,
            r.view_of().queue_policy == draft.queue_policy,
            r.view_of().approval == approval_view(draft.approval_action),
            r.view_of().origin == origin_view(draft.origin),
            r.view_of().ready_after is None,
            r.view_of().status == MailboxMessageStatus::Pending,
            r.view_of().phase == MailboxDeliveryPhase::Queued,
            final(self).records_view() == old(self).records_view().push(r.view_of()),
    {
        let created_at = clock_rfc3339_millis();
        let now = clock_millis();
        self.enqueue_at(draft, now, created_at)
    }

    /// Restores the records of the durable store: sorted by creation stamp
    /// then identity, with the allocator moved past every identity seen.
    pub fn hydrate(&mut self, records: Vec<MailboxMessageRecord>)
        ensures
            final(self).records_view() == sort_records(record_views(records@)),
            final(self).allocator() == observe_all(0, 0, sort_records(record_views(records@))),
    {
        self.records = sorted_records(records);
        self.last_millis = 0;
        self.counter = 0;
        let ghost v = self.records_view();
        let mut i: usize = 0;
        while i < self.records.len()
            invariant
                i <= self.records@.len(),
                self.records@.len() == v.len(),
                v == self.records_view(),
                self.allocator() == observe_all(0, 0, v.take(i as int)),
            decreases self.records@.len() - i,
        {
            let id = self.records[i].id.clone();
            self.observe_message_id(id.as_str());
            assert(record_views(self.records@).len() == self.records@.len());
            assert(v.take(i + 1).drop_last() =~= v.take(i as int));
            i = i + 1;
        }
        assert(v.take(v.len() as int) =~= v);
    }
}

// ---------------------------------------------------------------------------
// Identity laws

proof fn lemma_first_difference_lt(x: Seq<char>, y: Seq<char>, i: int)
    requires
        0 <= i < x.len(),
        i < y.len(),
        x.take(i) == y.take(i),
        (x[i] as u32) < (y[i] as u32),
    ensures
        lex_lt(x, y),
{
    assert(exists|j: int| 0 <= j < x.len() && j < y.len() && x.take(j) == y.take(j) && (#[trigger] x[j] as u32) < (y[j] as u32));
}

/// Identities issued one after the other sort in the order they were issued,
/// as long as the clock reads a non-negative time below `10^13` ms and the
/// counter has not reached its sixth digit.
pub proof fn law_message_ids_sort_in_issue_order(last: i64, counter: u64, now1: i64, now2: i64)
    requires
        0 <= last,
        next_id_state(last, counter, now1).1 < u64::MAX,
        next_id_state(next_id_state(last, counter, now1).0, next_id_state(last, counter, now1).1, now2).0 < pow10(13),
        next_id_state(next_id_state(last, counter, now1).0, next_id_state(last, counter, now1).1, now2).1 < pow10(6),
    ensures
        ({
            let (m1, c1) = next_id_state(last, counter, now1);
            let (m2, c2) = next_id_state(m1, c1, now2);
            lex_lt(message_id_text(m1 as int, c1 as nat), message_id_text(m2 as int, c2 as nat))
        }),
{
    let (m1, c1) = next_id_state(last, counter, now1);
    let (m2, c2) = next_id_state(m1, c1, now2);
    assert(0 <= m1 <= m2);
    assert(m1 < pow10(13));
    lemma_zero_padded_fixed(m1 as nat, 13);
    lemma_zero_padded_fixed(m2 as nat, 13);
    lemma_fixed_len(m1 as nat, 13);
    lemma_fixed_len(m2 as nat, 13);
    reveal_strlit("msg_");
    reveal_strlit("_");
    let x = message_id_text(m1 as int, c1 as nat);
    let y = message_id_text(m2 as int, c2 as nat);
    let f1 = fixed_digits(m1 as nat, 13);
    let f2 = fixed_digits(m2 as nat, 13);
    if m1 < m2 {
        lemma_fixed_digits_order(m1 as nat, m2 as nat, 13);
        let i = choose|i: int| 0 <= i < 13 && f1.take(i) == f2.take(i) && (#[trigger] f1[i] as u32) < (f2[i] as u32);
        assert(x.take(4 + i) =~= "msg_"@ + f1.take(i));
        assert(y.take(4 + i) =~= "msg_"@ + f2.take(i));
        assert(x[4 + i] == f1[i]);
        assert(y[4 + i] == f2[i]);
        lemma_first_difference_lt(x, y, 4 + i);
    } else {
        assert(c2 == c1 + 1);
        assert(c1 < pow10(6));
        lemma_zero_padded_fixed(c1 as nat, 6);
        lemma_zero_padded_fixed(c2 as nat, 6);
        lemma_fixed_len(c1 as nat, 6);
        lemma_fixed_len(c2 as nat, 6);
        let g1 = fixed_digits(c1 as nat, 6);
        let g2 = fixed_digits(c2 as nat, 6);
        lemma_fixed_digits_order(c1 as nat, c2 as nat, 6);
        let i = choose|i: int| 0 <= i < 6 && g1.take(i) == g2.take(i) && (#[trigger] g1[i] as u32) < (g2[i] as u32);
        assert(x.take(18 + i) =~= "msg_"@ + f1 + "_"@ + g1.take(i));
        assert(y.take(18 + i) =~= "msg_"@ + f2 + "_"@ + g2.take(i));
        assert(x[18 + i] == g1[i]);
        assert(y[18 + i] == g2[i]);
        lemma_first_difference_lt(x, y, 18 + i);
    }
}

/// Seeing an identity never moves the allocator back.
pub proof fn law_observing_never_rewinds(last: i64, counter: u64, id: Seq<char>)
    ensures
        ({
            let (m, c) = observe_state(last, counter, id);
            m > last || (m == last && c >= counter)
        }),
{
}

proof fn lemma_terminal_count_prepend(a: RecordView, rest: Seq<RecordView>, t: Seq<char>)
    ensures
        terminal_count(seq![a] + rest, t) == terminal_count(rest, t) + if terminal_for(a, t) { 1nat } else { 0nat },
    decreases rest.len(),
{
    if rest.len() == 0 {
        assert(seq![a] + rest =~= seq![a]);
        assert(seq![a].drop_last() =~= Seq::<RecordView>::empty());
        assert(terminal_count(Seq::<RecordView>::empty(), t) == 0);
        assert(seq![a].last() == a);
    } else {
        lemma_terminal_count_prepend(a, rest.drop_last(), t);
        assert((seq![a] + rest).drop_last() =~= seq![a] + rest.drop_last());
        assert((seq![a] + rest).last() == rest.last());
    }
}

proof fn lemma_drop_oldest_count(s: Seq<RecordView>, t: Seq<char>, n: nat)
    requires
        n <= terminal_count(s, t),
    ensures
        terminal_count(drop_oldest_terminal(s, t, n), t) == terminal_count(s, t) - n,
    decreases s.len(),
{
    if s.len() > 0 {
        let rest = s.drop_first();
        assert(s =~= seq![s[0]] + rest);
        lemma_terminal_count_prepend(s[0], rest, t);
        if n > 0 && terminal_for(s[0], t) {
            lemma_drop_oldest_count(rest, t, (n - 1) as nat);
        } else {
            lemma_drop_oldest_count(rest, t, n);
            lemma_terminal_count_prepend(s[0], drop_oldest_terminal(rest, t, n), t);
        }
    }
}

/// After compaction an agent has at most the cap of finished records: all of
/// them when it had no more, otherwise exactly the cap.
pub proof fn law_compaction_caps_finished_records(s: Seq<RecordView>, target: Seq<char>)
    ensures
        terminal_count(compact_spec(s, target), target) == if terminal_count(s, target) > MAX_TERMINAL_RECORDS_PER_TARGET {
            MAX_TERMINAL_RECORDS_PER_TARGET as nat
        } else {
            terminal_count(s, target)
        },
{
    let c = terminal_count(s, target);
    if c > MAX_TERMINAL_RECORDS_PER_TARGET {
        lemma_drop_oldest_count(s, target, (c - MAX_TERMINAL_RECORDS_PER_TARGET) as nat);
    }
}

proof fn lemma_insert_sorted_multiset(s: Seq<RecordView>, x: RecordView)
    ensures
        insert_sorted(s, x).to_multiset() == s.to_multiset().insert(x),
    decreases s.len(),
{
    broadcast use vstd::seq_lib::group_to_multiset_ensures;
    if s.len() == 0 {
        assert(seq![x] =~= Seq::<RecordView>::empty().push(x));
    } else if record_before(x, s.last()) {
        lemma_insert_sorted_multiset(s.drop_last(), x);
        assert(s =~= s.drop_last().push(s.last()));
        assert(insert_sorted(s, x).to_multiset() =~= s.to_multiset().insert(x));
    }
}

/// Restoring keeps every record, each as often as it was given.
pub proof fn law_hydrate_keeps_every_record(s: Seq<RecordView>)
    ensures
        sort_records(s).to_multiset() == s.to_multiset(),
    decreases s.len(),
{
    broadcast use vstd::seq_lib::group_to_multiset_ensures;
    if s.len() > 0 {
        law_hydrate_keeps_every_record(s.drop_last());
        lemma_insert_sorted_multiset(sort_records(s.drop_last()), s.last());
        assert(s =~= s.drop_last().push(s.last()));
    }
}

/// No record of `s` sorts before an earlier one.
pub open spec fn records_ascending(s: Seq<RecordView>) -> bool {
    forall|i: int, j: int| 0 <= i < j < s.len() ==> !record_before(#[trigger] s[j], #[trigger] s[i])
}

proof fn lemma_record_order(x: RecordView, y: RecordView, z: RecordView)
    ensures
        !record_before(x, x),
        record_before(x, y) ==> !record_before(y, x),
        !record_before(x, y) && !record_before(y, z) ==> !record_before(x, z),
{
    lemma_lex_facts(x.created_at, y.created_at, z.created_at);
    lemma_lex_facts(x.id, y.id, z.id);
}

proof fn lemma_insert_sorted_record(s: Seq<RecordView>, x: RecordView)
    requires
        records_ascending(s),
    ensures
        records_ascending(insert_sorted(s, x)),
        insert_sorted(s, x).len() == s.len() + 1,
        forall|k: int| 0 <= k < insert_sorted(s, x).len() ==>
            (#[trigger] insert_sorted(s, x)[k] == x || exists|m: int| 0 <= m < s.len() && s[m] == insert_sorted(s, x)[k]),
    decreases s.len(),
{
    let r = insert_sorted(s, x);
    if s.len() == 0 {
    } else if record_before(x, s.last()) {
        let d = s.drop_last();
        assert(records_ascending(d));
        lemma_insert_sorted_record(d, x);
        let p = insert_sorted(d, x);
        assert forall|i: int, j: int| 0 <= i < j < r.len() implies !record_before(#[trigger] r[j], #[trigger] r[i]) by {
            if j == r.len() - 1 {
                assert(r[j] == s.last());
                assert(r[i] == p[i]);
                if p[i] == x {
                    lemma_record_order(x, s.last(), x);
                } else {
                    let m = choose|m: int| 0 <= m < d.len() && d[m] == p[i];
                    assert(s[m] == d[m]);
                    assert(!record_before(s[s.len() - 1], s[m]));
                }
            } else {
                assert(r[i] == p[i] && r[j] == p[j]);
            }
        }
        assert forall|k: int| 0 <= k < r.len() implies
            (#[trigger] r[k] == x || exists|m: int| 0 <= m < s.len() && s[m] == r[k]) by {
            if k == r.len() - 1 {
                assert(s[s.len() - 1] == r[k]);
            } else {
                assert(r[k] == p[k]);
                if p[k] != x {
                    let m = choose|m: int| 0 <= m < d.len() && d[m] == p[k];
                    assert(s[m] == d[m]);
                }
            }
        }
    } else {
        assert forall|i: int, j: int| 0 <= i < j < r.len() implies !record_before(#[trigger] r[j], #[trigger] r[i]) by {
            if j == r.len() - 1 {
                assert(r[j] == x);
                assert(r[i] == s[i]);
                if i < s.len() - 1 {
                    assert(!record_before(s[s.len() - 1], s[i]));
                    lemma_record_order(x, s.last(), s[i]);
                }
            } else {
                assert(r[i] == s[i] && r[j] == s[j]);
            }
        }
        assert forall|k: int| 0 <= k < r.len() implies
            (#[trigger] r[k] == x || exists|m: int| 0 <= m < s.len() && s[m] == r[k]) by {
            if k < s.len() {
                assert(s[k] == r[k]);
            }
        }
    }
}

/// Restored records come out ordered by creation stamp, then identity.
pub proof fn law_hydrate_orders_by_creation_then_identity(s: Seq<RecordView>)
    ensures
        records_ascending(sort_records(s)),
        sort_records(s).len() == s.len(),
    decreases s.len(),
{
    if s.len() > 0 {
        law_hydrate_orders_by_creation_then_identity(s.drop_last());
        lemma_insert_sorted_record(sort_records(s.drop_last()), s.last());
    }
}

} // verus!
