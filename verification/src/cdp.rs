//! Failures of the DevTools Protocol connection, as reported to operators.
use vstd::prelude::*;

use crate::text::{decimal_chars, into_string, push_decimal, push_signed_decimal, push_str_chars, signed_decimal_chars, str_eq};

verus! {

/// Ceiling, in seconds, on how long any single protocol call may take.
pub const CDP_CALL_TIMEOUT_SECS: u64 = 30;

/// Synthetic event method published when the websocket closes.
pub const DISCONNECTED_METHOD: &'static str = "Wardian.disconnected";

/// Why a protocol call failed.
#[derive(Debug, Clone, PartialEq, Eq)]
pub enum CdpError {
    /// The websocket closed or was never established.
    Disconnected,
    /// The call exceeded the call timeout.
    Timeout { method: String },
    /// The browser answered with an error object.
    Protocol { method: String, code: i64, message: String },
    /// The browser answered with something this client cannot read.
    Malformed { method: String, detail: String },
}

/// The operator-facing sentence for each protocol failure.
pub open spec fn cdp_error_message_spec(e: CdpError) -> Seq<char> {
    match e {
        CdpError::Disconnected => "the browser connection is closed"@,
        CdpError::Timeout { method } =>
            method@ + " did not answer within "@ + decimal_chars(CDP_CALL_TIMEOUT_SECS as nat) + " seconds"@,
        CdpError::Protocol { method, code, message } =>
            method@ + " failed ("@ + signed_decimal_chars(code as int) + "): "@ + message@,
        CdpError::Malformed { method, detail } =>
            method@ + " returned an unreadable response: "@ + detail@,
    }
}

impl CdpError {
    /// The operator-facing explanation of this failure.
    pub fn message(&self) -> (r: String)
        ensures
            r@ == cdp_error_message_spec(*self),
    {
        let mut out: Vec<char> = Vec::new();
        match self {
            CdpError::Disconnected => {
                push_str_chars(&mut out, "the browser connection is closed");
            },
            CdpError::Timeout { method } => {
                push_str_chars(&mut out, method.as_str());
                push_str_chars(&mut out, " did not answer within ");
                push_decimal(&mut out, CDP_CALL_TIMEOUT_SECS);
                push_str_chars(&mut out, " seconds");
            },
            CdpError::Protocol { method, code, message } => {
                push_str_chars(&mut out, method.as_str());
                push_str_chars(&mut out, " failed (");
                push_signed_decimal(&mut out, *code);
                push_str_chars(&mut out, "): ");
                push_str_chars(&mut out, message.as_str());
            },
            CdpError::Malformed { method, detail } => {
                push_str_chars(&mut out, method.as_str());
                push_str_chars(&mut out, " returned an unreadable response: ");
                push_str_chars(&mut out, detail.as_str());
            },
        }
        proof {
            assert(out@ =~= cdp_error_message_spec(*self));
        }
        into_string(out)
    }
}

/// What one inbound protocol frame carries, as far as routing reads it: the
/// reply id when the frame has a non-negative integer `id`, the `error`
/// object, the `result` and `params` values, the `method` and `sessionId`
/// strings. `V` is the protocol's JSON value, carried through unread.
#[derive(Debug, Clone, PartialEq)]
pub struct FrameFields<V> {
    pub id: Option<u64>,
    pub error: Option<ErrorField>,
    pub result: Option<V>,
    pub method: Option<String>,
    pub session_id: Option<String>,
    pub params: Option<V>,
}

/// A reply's `error` object: its `code` (0 when absent) and `message` (empty
/// when absent) when it reads as such, else its JSON text.
#[derive(Debug, Clone, PartialEq, Eq)]
pub enum ErrorField {
    Body { code: i64, message: String },
    Unreadable(String),
}

/// A protocol event addressed to a target session, or to the browser.
#[derive(Debug, Clone, PartialEq)]
pub struct CdpEvent<V> {
    pub session_id: Option<String>,
    pub method: String,
    pub params: V,
}

/// One inbound frame, routed: a command reply, an event, or neither.
#[derive(Debug, PartialEq)]
pub enum InboundFrame<V> {
    Reply { id: u64, result: Result<V, (i64, String)> },
    Event(CdpEvent<V>),
    Ignored,
}

/// The error a reply carries, as `(code, message)`.
pub open spec fn error_pair(e: ErrorField) -> (int, Seq<char>) {
    match e {
        ErrorField::Body { code, message } => (code as int, message@),
        ErrorField::Unreadable(text) => (0, text@),
    }
}

/// Routes one frame (`None` when it is not JSON): a frame with an id is a
/// reply, failed when it has an error and otherwise carrying its result (the
/// empty object when absent); a frame without an id but with a method is an
/// event, with its params (the empty object when absent); anything else is
/// ignored.
pub fn classify_frame<V>(frame: Option<FrameFields<V>>, empty: V) -> (r: InboundFrame<V>)
    ensures
        frame is None ==> r is Ignored,
        frame is Some && frame->0.id is Some && frame->0.error is Some ==> (r matches InboundFrame::Reply { id, result: Err(pair) }
            && id == frame->0.id->0 && (pair.0 as int, pair.1@) == error_pair(frame->0.error->0)),
        frame is Some && frame->0.id is Some && frame->0.error is None ==> (r matches InboundFrame::Reply { id, result: Ok(v) }
            && id == frame->0.id->0 && v == (match frame->0.result { Some(x) => x, None => empty })),
        frame is Some && frame->0.id is None && frame->0.method is Some ==> (r matches InboundFrame::Event(e)
            && e.method@ == frame->0.method->0@
            && e.session_id == frame->0.session_id
            && e.params == (match frame->0.params { Some(x) => x, None => empty })),
        frame is Some && frame->0.id is None && frame->0.method is None ==> r is Ignored,
{
    match frame {
        None => InboundFrame::Ignored,
        Some(f) => match f.id {
            Some(id) => match f.error {
                Some(ErrorField::Body { code, message }) => InboundFrame::Reply { id, result: Err((code, message)) },
                Some(ErrorField::Unreadable(text)) => InboundFrame::Reply { id, result: Err((0, text)) },
                None => InboundFrame::Reply {
                    id,
                    result: Ok(match f.result {
                        Some(x) => x,
                        None => empty,
                    }),
                },
            },
            None => match f.method {
                Some(method) => InboundFrame::Event(CdpEvent {
                    session_id: f.session_id,
                    method,
                    params: match f.params {
                        Some(x) => x,
                        None => empty,
                    },
                }),
                None => InboundFrame::Ignored,
            },
        },
    }
}

/// A string field a reply must carry: the field's text when the reply has
/// it as a string, else a malformed-reply error naming the field.
pub fn required_str(method: &str, field: &str, found: Option<String>) -> (r: Result<String, CdpError>)
    ensures
        found is Some ==> r == Ok::<String, CdpError>(found->0),
        found is None ==> (r matches Err(CdpError::Malformed { method: m, detail }) && m@ == method@
            && detail@ == "missing "@ + field@),
{
    match found {
        Some(text) => Ok(text),
        None => {
            let mut detail: Vec<char> = Vec::new();
            push_str_chars(&mut detail, "missing ");
            push_str_chars(&mut detail, field);
            Err(CdpError::Malformed { method: method.to_owned(), detail: into_string(detail) })
        },
    }
}

/// What a session's event pump receives next.
#[derive(Debug, PartialEq)]
pub enum PumpInput<V> {
    /// The receiver fell behind and events were dropped.
    Lagged,
    /// The channel closed.
    Closed,
    Event(CdpEvent<V>),
}

/// What the pump does with it.
#[derive(Debug, PartialEq)]
pub enum PumpAction<V> {
    /// Invalidate every outstanding ref and resynchronize the page state:
    /// the dropped events may have included a navigation.
    Resynchronize,
    /// The browser is gone: remove the session and announce it once.
    Reap,
    /// An event for another target session.
    Skip,
    /// An event of this session's page.
    Handle(CdpEvent<V>),
}

/// Whether an event names this target session.
pub open spec fn addressed_to(session_id: Option<String>, cdp_session_id: Seq<char>) -> bool {
    session_id is Some && session_id->0@ == cdp_session_id
}

/// One step of a session's event pump, for the page attached as
/// `cdp_session_id`: a lag resynchronizes, a closed channel or the
/// disconnect signal reaps the session, and only events addressed to this
/// page are handled.
pub fn pump_step<V>(cdp_session_id: &str, input: PumpInput<V>) -> (r: PumpAction<V>)
    ensures
        input is Lagged ==> r is Resynchronize,
        input is Closed ==> r is Reap,
        input is Event && input->Event_0.method@ == DISCONNECTED_METHOD@ ==> r is Reap,
        input is Event && input->Event_0.method@ != DISCONNECTED_METHOD@
            && !addressed_to(input->Event_0.session_id, cdp_session_id@) ==> r is Skip,
        input is Event && input->Event_0.method@ != DISCONNECTED_METHOD@
            && addressed_to(input->Event_0.session_id, cdp_session_id@) ==> r == PumpAction::Handle(input->Event_0),
{
    match input {
        PumpInput::Lagged => PumpAction::Resynchronize,
        PumpInput::Closed => PumpAction::Reap,
        PumpInput::Event(e) => {
            if str_eq(e.method.as_str(), DISCONNECTED_METHOD) {
                return PumpAction::Reap;
            }
            let addressed = match &e.session_id {
                Some(id) => str_eq(id.as_str(), cdp_session_id),
                None => false,
            };
            if addressed {
                PumpAction::Handle(e)
            } else {
                PumpAction::Skip
            }
        },
    }
}

/// The calls awaiting a reply on one connection, and whether it has closed.
/// Each call gets the next id; a reply is delivered to the call with its id,
/// at most once.
pub struct CallLedger {
    next_id: u64,
    pending: Vec<u64>,
    closed: bool,
}

/// Ids issued before `next`, each pending at most once.
pub open spec fn ledger_wf(next: nat, pending: Seq<u64>) -> bool {
    &&& next >= 1
    &&& forall|i: int| 0 <= i < pending.len() ==> #[trigger] pending[i] < next
    &&& forall|i: int, j: int| 0 <= i < j < pending.len() ==> #[trigger] pending[i] != #[trigger] pending[j]
}

impl CallLedger {
    pub closed spec fn next(&self) -> nat {
        self.next_id as nat
    }

    pub closed spec fn pending(&self) -> Seq<u64> {
        self.pending@
    }

    pub closed spec fn is_closed(&self) -> bool {
        self.closed
    }

    pub open spec fn wf(&self) -> bool {
        ledger_wf(self.next(), self.pending())
    }

    /// An open connection with no call in flight; the first call is id 1.
    pub fn new() -> (r: CallLedger)
        ensures
            r.wf(),
            r.next() == 1,
            r.pending() == Seq::<u64>::empty(),
            !r.is_closed(),
    {
        CallLedger { next_id: 1, pending: Vec::new(), closed: false }
    }

    /// Starts a call: refused once the connection closed, else it takes the
    /// next id and waits for its reply.
    pub fn begin(&mut self) -> (r: Result<u64, CdpError>)
        requires
            old(self).wf(),
            old(self).next() < u64::MAX,
        ensures
            final(self).wf(),
            final(self).is_closed() == old(self).is_closed(),
            old(self).is_closed() ==> r == Err::<u64, CdpError>(CdpError::Disconnected) && *final(self) == *old(self),
            !old(self).is_closed() ==> r == Ok::<u64, CdpError>(old(self).next() as u64)
                && final(self).next() == old(self).next() + 1
                && final(self).pending() == old(self).pending().push(old(self).next() as u64),
    {
        if self.closed {
            return Err(CdpError::Disconnected);
        }
        let id = self.next_id;
        self.pending.push(id);
        self.next_id = self.next_id + 1;
        Ok(id)
    }

    fn position(&self, id: u64) -> (r: usize)
        ensures
            r <= self.pending@.len(),
            r < self.pending@.len() ==> self.pending@[r as int] == id,
            r == self.pending@.len() ==> !self.pending@.contains(id),
    {
        let mut i: usize = 0;
        while i < self.pending.len()
            invariant
                i <= self.pending@.len(),
                forall|k: int| 0 <= k < i ==> self.pending@[k] != id,
            decreases self.pending@.len() - i,
        {
            if self.pending[i] == id {
                return i;
            }
            i = i + 1;
        }
        i
    }

    /// A reply or an abandoned wait for `id`: the call stops waiting.
    /// Returns whether a call was waiting for it; a reply to a call that no
    /// longer waits is dropped.
    pub fn settle(&mut self, id: u64) -> (r: bool)
        requires
            old(self).wf(),
        ensures
            final(self).wf(),
            final(self).next() == old(self).next(),
            final(self).is_closed() == old(self).is_closed(),
            r == old(self).pending().contains(id),
            !final(self).pending().contains(id),
            forall|x: u64| x != id ==> (#[trigger] final(self).pending().contains(x) <==> old(self).pending().contains(x)),
    {
        let ghost before = self.pending@;
        let k = self.position(id);
        if k < self.pending.len() {
            self.pending.remove(k);
            proof {
                let after = self.pending@;
                assert(after =~= before.remove(k as int));
                assert forall|x: u64| x != id implies (#[trigger] after.contains(x) <==> before.contains(x)) by {
                    if before.contains(x) {
                        let q = choose|q: int| 0 <= q < before.len() && before[q] == x;
                        if q < k {
                            assert(after[q] == x);
                        } else {
                            assert(q != k);
                            assert(after[q - 1] == x);
                        }
                    }
                    if after.contains(x) {
                        let q = choose|q: int| 0 <= q < after.len() && after[q] == x;
                        if q < k {
                            assert(before[q] == x);
                        } else {
                            assert(before[q + 1] == x);
                        }
                    }
                }
                if after.contains(id) {
                    let q = choose|q: int| 0 <= q < after.len() && after[q] == id;
                    if q < k {
                        assert(before[q] == before[k as int]);
                    } else {
                        assert(before[q + 1] == before[k as int]);
                    }
                }
                assert forall|i: int| 0 <= i < after.len() implies #[trigger] after[i] < self.next() by {
                    if i < k {
                        assert(after[i] == before[i]);
                    } else {
                        assert(after[i] == before[i + 1]);
                    }
                }
                assert forall|i: int, j: int| 0 <= i < j < after.len() implies #[trigger] after[i] != #[trigger] after[j] by {
                    let oi = if i < k { i } else { i + 1 };
                    let oj = if j < k { j } else { j + 1 };
                    assert(after[i] == before[oi] && after[j] == before[oj]);
                }
            }
            true
        } else {
            false
        }
    }

    /// The socket closed: every waiting call is failed, and later calls are
    /// refused. Returns the ids of the calls to fail, in the order they began.
    pub fn close(&mut self) -> (r: Vec<u64>)
        requires
            old(self).wf(),
        ensures
            final(self).wf(),
            final(self).is_closed(),
            final(self).next() == old(self).next(),
            final(self).pending() == Seq::<u64>::empty(),
            r@ == old(self).pending(),
    {
        self.closed = true;
        let mut drained: Vec<u64> = Vec::new();
        std::mem::swap(&mut drained, &mut self.pending);
        assert(self.pending@ =~= Seq::<u64>::empty());
        drained
    }
}

/// How a call's wait ended.
#[derive(Debug, PartialEq)]
pub enum CallWait<V> {
    /// The browser replied with a result.
    Replied(V),
    /// The browser replied with an error object.
    Refused(i64, String),
    /// The connection dropped the call.
    Dropped,
    /// No reply within the call timeout.
    TimedOut,
}

/// What a call of `method` returns for how its wait ended.
pub fn call_outcome<V>(method: &str, wait: CallWait<V>) -> (r: Result<V, CdpError>)
    ensures
        wait is Replied ==> r == Ok::<V, CdpError>(wait->Replied_0),
        wait is Refused ==> (r matches Err(CdpError::Protocol { method: m, code, message })
            && m@ == method@ && code == wait->Refused_0 && message == wait->Refused_1),
        wait is Dropped ==> r == Err::<V, CdpError>(CdpError::Disconnected),
        wait is TimedOut ==> (r matches Err(CdpError::Timeout { method: m }) && m@ == method@),
{
    match wait {
        CallWait::Replied(v) => Ok(v),
        CallWait::Refused(code, message) => Err(CdpError::Protocol { method: method.to_owned(), code, message }),
        CallWait::Dropped => Err(CdpError::Disconnected),
        CallWait::TimedOut => Err(CdpError::Timeout { method: method.to_owned() }),
    }
}

/// Ids are never reused: a new call's id is above every id still waiting.
pub proof fn law_call_ids_are_fresh(next: nat, pending: Seq<u64>)
    requires
        ledger_wf(next, pending),
        next <= u64::MAX,
    ensures
        !pending.contains(next as u64),
{
    if pending.contains(next as u64) {
        let q = choose|q: int| 0 <= q < pending.len() && pending[q] == next as u64;
        assert(pending[q] < next);
    }
}

} // verus!
