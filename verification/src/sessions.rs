//! Per-session bookkeeping beside a live browser: who may drive the page and
//! the bounded console history.
use vstd::prelude::*;

use crate::browser::BrowserError;
use crate::file_resources::canonical_uuid_form;
use crate::text::{chars_eq, chars_of, str_eq};

verus! {

/// Calls `uuid::Uuid::new_v4` and renders it: the value is random, so only
/// its form is stated, the lowercase hyphenated text `Uuid`'s `Display` writes.
#[verifier::external_body]
fn new_attachment_token() -> (r: String)
    ensures
        canonical_uuid_form(r@),
{
    uuid::Uuid::new_v4().to_string()
}

/// One presentation's streaming attachment. The token is the credential.
#[derive(Debug, Clone, PartialEq, Eq)]
pub struct Attachment {
    pub presentation_id: String,
    pub token: String,
}

/// What `attach_screencast` hands back to a presentation.
#[derive(Debug, Clone, PartialEq, Eq)]
pub struct ScreencastAttachment {
    /// Credential for every later mutation and for detaching this attachment.
    pub token: String,
    pub can_drive: bool,
}

/// The ghost model of the attachments: `(presentation, token)` in attach order, and the driver.
pub struct LeaseView {
    pub viewers: Seq<(Seq<char>, Seq<char>)>,
    pub owner: Option<Seq<char>>,
}

/// The attachments of one session and the token that holds its drive lease.
#[derive(Debug)]
pub struct ScreencastLeases {
    viewers: Vec<Attachment>,
    owner_token: Option<String>,
}

/// The viewers left after every attachment holding `token` is dropped, in order.
pub open spec fn without_token(viewers: Seq<(Seq<char>, Seq<char>)>, token: Seq<char>) -> Seq<(Seq<char>, Seq<char>)>
    decreases viewers.len(),
{
    if viewers.len() == 0 {
        viewers
    } else if viewers.last().1 == token {
        without_token(viewers.drop_last(), token)
    } else {
        without_token(viewers.drop_last(), token).push(viewers.last())
    }
}

pub open spec fn holds_token(viewers: Seq<(Seq<char>, Seq<char>)>, token: Seq<char>) -> bool {
    exists|i: int| 0 <= i < viewers.len() && (#[trigger] viewers[i]).1 == token
}

/// Each presentation streams at most once.
pub open spec fn presentations_distinct(viewers: Seq<(Seq<char>, Seq<char>)>) -> bool {
    forall|i: int, j: int| 0 <= i < j < viewers.len() ==> #[trigger] viewers[i].0 != #[trigger] viewers[j].0
}

/// A driver exists exactly when some attachment streams, the driver is one
/// of them, and each presentation streams at most once.
pub open spec fn lease_wf(l: LeaseView) -> bool {
    &&& (l.owner is None <==> l.viewers.len() == 0)
    &&& (l.owner matches Some(t) ==> holds_token(l.viewers, t))
    &&& presentations_distinct(l.viewers)
}

/// The index of the attachment of `presentation`, or the count when it has none.
pub open spec fn index_of_presentation(viewers: Seq<(Seq<char>, Seq<char>)>, presentation: Seq<char>, from: int) -> int
    decreases viewers.len() - from,
{
    if from < 0 || from >= viewers.len() {
        viewers.len() as int
    } else if viewers[from].0 == presentation {
        from
    } else {
        index_of_presentation(viewers, presentation, from + 1)
    }
}

proof fn lemma_index_of_presentation(viewers: Seq<(Seq<char>, Seq<char>)>, presentation: Seq<char>, from: int)
    requires
        0 <= from <= viewers.len(),
    ensures
        from <= index_of_presentation(viewers, presentation, from) <= viewers.len(),
        index_of_presentation(viewers, presentation, from) < viewers.len()
            ==> viewers[index_of_presentation(viewers, presentation, from)].0 == presentation,
        forall|j: int| from <= j < index_of_presentation(viewers, presentation, from) ==> viewers[j].0 != presentation,
    decreases viewers.len() - from,
{
    if from < viewers.len() && viewers[from].0 != presentation {
        lemma_index_of_presentation(viewers, presentation, from + 1);
    }
}

/// The attachments after `presentation` attaches with `token`: a presentation
/// already streaming has its older attachment replaced in place, and the new
/// token inherits the lease the older one held; a new presentation joins the
/// end, and drives when nobody does.
pub open spec fn attach_spec(l: LeaseView, presentation: Seq<char>, token: Seq<char>) -> LeaseView {
    let k = index_of_presentation(l.viewers, presentation, 0);
    if k < l.viewers.len() {
        LeaseView {
            viewers: l.viewers.update(k, (presentation, token)),
            owner: if l.owner == Some(l.viewers[k].1) { Some(token) } else { l.owner },
        }
    } else {
        LeaseView {
            viewers: l.viewers.push((presentation, token)),
            owner: if l.owner is None { Some(token) } else { l.owner },
        }
    }
}

/// The lease after `token` leaves: when it drove, the first remaining
/// attachment drives, or nobody when none remains.
pub open spec fn release_owner(l: LeaseView, token: Seq<char>) -> Option<Seq<char>> {
    let rest = without_token(l.viewers, token);
    if l.owner == Some(token) {
        if rest.len() == 0 { None } else { Some(rest[0].1) }
    } else {
        l.owner
    }
}

proof fn lemma_without_token_members(viewers: Seq<(Seq<char>, Seq<char>)>, token: Seq<char>)
    ensures
        forall|x: (Seq<char>, Seq<char>)| #[trigger] without_token(viewers, token).contains(x) ==> viewers.contains(x) && x.1 != token,
        presentations_distinct(viewers) ==> presentations_distinct(without_token(viewers, token)),
    decreases viewers.len(),
{
    if viewers.len() > 0 {
        let init = viewers.drop_last();
        lemma_without_token_members(init, token);
        let rest = without_token(init, token);
        let w = without_token(viewers, token);
        assert forall|x: (Seq<char>, Seq<char>)| init.contains(x) implies viewers.contains(x) by {
            let k = choose|k: int| 0 <= k < init.len() && init[k] == x;
            assert(viewers[k] == x);
        }
        assert forall|x: (Seq<char>, Seq<char>)| #[trigger] w.contains(x) implies viewers.contains(x) && x.1 != token by {
            let k = choose|k: int| 0 <= k < w.len() && w[k] == x;
            if k < rest.len() {
                assert(rest[k] == x && rest.contains(x));
            } else {
                assert(viewers[viewers.len() - 1] == x);
            }
        }
        if presentations_distinct(viewers) {
            assert(presentations_distinct(init)) by {
                assert forall|i: int, j: int| 0 <= i < j < init.len() implies #[trigger] init[i].0 != #[trigger] init[j].0 by {
                    assert(init[i] == viewers[i] && init[j] == viewers[j]);
                }
            }
            if viewers.last().1 != token {
                assert forall|i: int, j: int| 0 <= i < j < w.len() implies #[trigger] w[i].0 != #[trigger] w[j].0 by {
                    if j < rest.len() {
                        assert(w[i] == rest[i] && w[j] == rest[j]);
                    } else {
                        assert(w[i] == rest[i] && w[j] == viewers.last());
                        assert(rest.contains(rest[i]));
                        let k = choose|k: int| 0 <= k < init.len() && init[k] == rest[i];
                        assert(viewers[k] == rest[i]);
                        assert(viewers[viewers.len() - 1] == viewers.last());
                    }
                }
            }
        }
    }
}

proof fn lemma_without_token_keeps_others(viewers: Seq<(Seq<char>, Seq<char>)>, token: Seq<char>, other: Seq<char>)
    requires
        other != token,
        holds_token(viewers, other),
    ensures
        holds_token(without_token(viewers, token), other),
    decreases viewers.len(),
{
    if viewers.last().1 == other {
        let rest = without_token(viewers.drop_last(), token);
        assert(without_token(viewers, token) == rest.push(viewers.last()));
        assert(without_token(viewers, token)[rest.len() as int] == viewers.last());
    } else {
        let i = choose|i: int| 0 <= i < viewers.len() && (#[trigger] viewers[i]).1 == other;
        assert(i < viewers.len() - 1);
        assert(viewers.drop_last()[i] == viewers[i]);
        lemma_without_token_keeps_others(viewers.drop_last(), token, other);
        let rest = without_token(viewers.drop_last(), token);
        let j = choose|j: int| 0 <= j < rest.len() && (#[trigger] rest[j]).1 == other;
        if viewers.last().1 != token {
            assert(without_token(viewers, token)[j] == rest[j]);
        }
    }
}

impl View for ScreencastLeases {
    type V = LeaseView;

    closed spec fn view(&self) -> LeaseView {
        LeaseView {
            viewers: self.viewers@.map_values(|a: Attachment| (a.presentation_id@, a.token@)),
            owner: match self.owner_token {
                Some(t) => Some(t@),
                None => None,
            },
        }
    }
}

impl ScreencastLeases {
    /// No attachment streams and nobody drives.
    pub fn new() -> (r: Self)
        ensures
            r@.viewers.len() == 0,
            r@.owner is None,
            lease_wf(r@),
    {
        ScreencastLeases { viewers: Vec::new(), owner_token: None }
    }

    /// Records an attachment; see `attach_spec`. Returns whether the stream
    /// must now be started: only the first attachment of an idle session
    /// starts it.
    pub fn attach(&mut self, presentation_id: &str, token: String) -> (should_start: bool)
        requires
            lease_wf(old(self)@),
        ensures
            lease_wf(final(self)@),
            final(self)@ == attach_spec(old(self)@, presentation_id@, token@),
            should_start == (old(self)@.viewers.len() == 0),
    {
        let ghost before = self@;
        proof { lemma_index_of_presentation(before.viewers, presentation_id@, 0); }
        let ghost k0 = index_of_presentation(before.viewers, presentation_id@, 0);
        let mut k: usize = 0;
        while k < self.viewers.len() && !str_eq(self.viewers[k].presentation_id.as_str(), presentation_id)
            invariant
                k <= self.viewers@.len(),
                before == self@,
                forall|j: int| 0 <= j < k ==> #[trigger] before.viewers[j].0 != presentation_id@,
            decreases self.viewers@.len() - k,
        {
            assert(before.viewers[k as int] == (self.viewers@[k as int].presentation_id@, self.viewers@[k as int].token@));
            k = k + 1;
        }
        proof {
            if k < self.viewers@.len() {
                assert(before.viewers[k as int] == (self.viewers@[k as int].presentation_id@, self.viewers@[k as int].token@));
            }
            if k0 < k {
                assert(before.viewers[k0].0 == presentation_id@);
            }
            if k < k0 {
                assert(before.viewers[k as int].0 == presentation_id@);
            }
        }
        let t2 = token.clone();
        if k < self.viewers.len() {
            let old_token = self.viewers[k].token.clone();
            let inherited = match &self.owner_token {
                Some(o) => str_eq(o.as_str(), old_token.as_str()),
                None => false,
            };
            self.viewers.set(k, Attachment { presentation_id: presentation_id.to_owned(), token });
            if inherited {
                self.owner_token = Some(t2);
            }
            proof {
                let after = self@;
                assert(after.viewers =~= before.viewers.update(k as int, (presentation_id@, t2@)));
                assert forall|i: int, j: int| 0 <= i < j < after.viewers.len() implies #[trigger] after.viewers[i].0 != #[trigger] after.viewers[j].0 by {
                    if i != k && j != k {
                        assert(after.viewers[i] == before.viewers[i] && after.viewers[j] == before.viewers[j]);
                    } else if i == k {
                        assert(after.viewers[j] == before.viewers[j]);
                    } else {
                        assert(after.viewers[i] == before.viewers[i]);
                    }
                }
                if let Some(o) = after.owner {
                    if inherited {
                        assert(after.viewers[k as int].1 == o);
                    } else {
                        let i = choose|i: int| 0 <= i < before.viewers.len() && (#[trigger] before.viewers[i]).1 == o;
                        assert(i != k);
                        assert(after.viewers[i] == before.viewers[i]);
                    }
                }
            }
            false
        } else {
            self.viewers.push(Attachment { presentation_id: presentation_id.to_owned(), token });
            if self.owner_token.is_none() {
                self.owner_token = Some(t2);
            }
            proof {
                let after = self@;
                assert(after.viewers =~= before.viewers.push((presentation_id@, t2@)));
                let n = before.viewers.len() as int;
                assert(after.viewers[n].1 == t2@);
                if let Some(o) = before.owner {
                    let i = choose|i: int| 0 <= i < before.viewers.len() && (#[trigger] before.viewers[i]).1 == o;
                    assert(after.viewers[i] == before.viewers[i]);
                }
                assert forall|i: int, j: int| 0 <= i < j < after.viewers.len() implies #[trigger] after.viewers[i].0 != #[trigger] after.viewers[j].0 by {
                    if j < n {
                        assert(after.viewers[i] == before.viewers[i] && after.viewers[j] == before.viewers[j]);
                    } else {
                        assert(after.viewers[i] == before.viewers[i]);
                    }
                }
            }
            self.viewers.len() == 1
        }
    }

    /// Starts an attachment with a freshly minted token; see `attach_spec`.
    pub fn attach_screencast(&mut self, presentation_id: &str) -> (r: (ScreencastAttachment, bool))
        requires
            lease_wf(old(self)@),
        ensures
            lease_wf(final(self)@),
            final(self)@ == attach_spec(old(self)@, presentation_id@, r.0.token@),
            r.0.can_drive == (final(self)@.owner == Some(r.0.token@)),
            r.1 == (old(self)@.viewers.len() == 0),
    {
        let token = new_attachment_token();
        let t2 = token.clone();
        let should_start = self.attach(presentation_id, token);
        let can_drive = self.token_may_drive(t2.as_str());
        (ScreencastAttachment { token: t2, can_drive }, should_start)
    }

    /// Drops every attachment holding `token` and hands the lease on if it
    /// held it. Returns whether no attachment streams any longer, and the
    /// presentation the lease moved to, when it moved to one.
    pub fn release(&mut self, token: &str) -> (r: (bool, Option<String>))
        requires
            lease_wf(old(self)@),
        ensures
            lease_wf(final(self)@),
            final(self)@.viewers == without_token(old(self)@.viewers, token@),
            final(self)@.owner == release_owner(old(self)@, token@),
            r.0 == (final(self)@.viewers.len() == 0),
            (match r.1 { Some(p) => Some(p@), None => None }) == (if old(self)@.owner == Some(token@) && final(self)@.viewers.len() > 0 {
                Some(final(self)@.viewers[0].0)
            } else {
                None::<Seq<char>>
            }),
    {
        let ghost before = self@;
        let key = chars_of(token);
        let mut kept: Vec<Attachment> = Vec::new();
        let mut i: usize = 0;
        while i < self.viewers.len()
            invariant
                i <= self.viewers@.len(),
                key@ == token@,
                before == self@,
                kept@.map_values(|a: Attachment| (a.presentation_id@, a.token@))
                    == without_token(before.viewers.take(i as int), token@),
            decreases self.viewers@.len() - i,
        {
            let v = &self.viewers[i];
            let tc = chars_of(v.token.as_str());
            let ghost prev = kept@;
            assert(before.viewers.take(i + 1).drop_last() =~= before.viewers.take(i as int));
            assert(before.viewers.take(i + 1).last() == (v.presentation_id@, v.token@));
            if !chars_eq(tc.as_slice(), key.as_slice()) {
                kept.push(Attachment { presentation_id: v.presentation_id.clone(), token: v.token.clone() });
                assert(kept@.map_values(|a: Attachment| (a.presentation_id@, a.token@))
                    =~= prev.map_values(|a: Attachment| (a.presentation_id@, a.token@)).push((v.presentation_id@, v.token@)));
            }
            i = i + 1;
        }
        assert(before.viewers.take(self.viewers@.len() as int) =~= before.viewers);
        let owner_left = match &self.owner_token {
            Some(o) => {
                let oc = chars_of(o.as_str());
                chars_eq(oc.as_slice(), key.as_slice())
            },
            None => false,
        };
        self.viewers = kept;
        let mut handed: Option<String> = None;
        if owner_left {
            if self.viewers.len() == 0 {
                self.owner_token = None;
            } else {
                self.owner_token = Some(self.viewers[0].token.clone());
                handed = Some(self.viewers[0].presentation_id.clone());
                assert(self@.viewers[0] == (self.viewers@[0].presentation_id@, self.viewers@[0].token@));
            }
        }
        proof {
            lemma_without_token_members(before.viewers, token@);
            let after = self@;
            if let Some(o) = after.owner {
                if owner_left {
                    assert(after.viewers[0].1 == o);
                } else {
                    lemma_without_token_keeps_others(before.viewers, token@, o);
                }
            } else {
                if !owner_left && before.owner is Some {
                    assert(false);
                }
            }
            if after.viewers.len() == 0 && !owner_left {
                if let Some(o) = before.owner {
                    lemma_without_token_keeps_others(before.viewers, token@, o);
                    let j = choose|j: int| 0 <= j < after.viewers.len() && (#[trigger] after.viewers[j]).1 == o;
                }
            }
        }
        (self.viewers.len() == 0, handed)
    }

    /// Whether an attachment token currently holds the drive lease.
    pub fn token_may_drive(&self, token: &str) -> (r: bool)
        ensures
            r == (self@.owner == Some(token@)),
    {
        match &self.owner_token {
            Some(o) => {
                let oc = chars_of(o.as_str());
                let tc = chars_of(token);
                chars_eq(oc.as_slice(), tc.as_slice())
            },
            None => false,
        }
    }

    /// How many presentations are streaming.
    pub fn attachment_count(&self) -> (n: usize)
        ensures
            n == self@.viewers.len(),
    {
        self.viewers.len()
    }

    /// Refuses a mutation that does not carry the drive lease. `None` is the
    /// control-plane path, which is not a competing presentation.
    pub fn require_drive(&self, token: Option<&str>) -> (r: Result<(), BrowserError>)
        ensures
            match token {
                None => r is Ok,
                Some(t) => if self@.owner == Some(t@) { r is Ok } else { r matches Err(BrowserError::ReadOnlyPresentation) },
            },
    {
        match token {
            None => Ok(()),
            Some(t) => if self.token_may_drive(t) { Ok(()) } else { Err(BrowserError::ReadOnlyPresentation) },
        }
    }
}

/// A re-attach supersedes the older attachment of its presentation: a
/// cleanup that still holds the older token detaches nothing of the newer
/// attachment, and when the older one drove, the newer one keeps driving.
pub proof fn law_a_stale_detach_spares_the_newer_attachment(l: LeaseView, presentation: Seq<char>, older: Seq<char>, newer: Seq<char>)
    requires
        lease_wf(l),
        index_of_presentation(l.viewers, presentation, 0) < l.viewers.len(),
        l.viewers[index_of_presentation(l.viewers, presentation, 0)].1 == older,
        older != newer,
    ensures
        holds_token(without_token(attach_spec(l, presentation, newer).viewers, older), newer),
        l.owner == Some(older) ==> release_owner(attach_spec(l, presentation, newer), older) == Some(newer),
{
    lemma_index_of_presentation(l.viewers, presentation, 0);
    let k = index_of_presentation(l.viewers, presentation, 0);
    let a = attach_spec(l, presentation, newer);
    assert(a.viewers[k].1 == newer);
    lemma_without_token_keeps_others(a.viewers, older, newer);
}

/// One console message the page produced.
#[derive(Debug, Clone, PartialEq, Eq)]
pub struct ConsoleEntry {
    pub level: String,
    pub text: String,
}

/// Console entries retained per session.
pub const CONSOLE_BUFFER: usize = 200;

/// The retained console history of a session and its count of errors since the last navigation.
#[derive(Debug)]
pub struct ConsoleLog {
    entries: Vec<ConsoleEntry>,
    error_count: usize,
}

pub struct ConsoleView {
    pub entries: Seq<ConsoleEntry>,
    pub error_count: nat,
}

impl View for ConsoleLog {
    type V = ConsoleView;

    closed spec fn view(&self) -> ConsoleView {
        ConsoleView { entries: self.entries@, error_count: self.error_count as nat }
    }
}

impl ConsoleLog {
    pub fn new() -> (r: Self)
        ensures
            r@.entries.len() == 0,
            r@.error_count == 0,
    {
        ConsoleLog { entries: Vec::new(), error_count: 0 }
    }

    /// Appends an entry, dropping the oldest once the buffer is full; an
    /// `error` entry is counted even after it has been dropped.
    pub fn record(&mut self, entry: ConsoleEntry)
        requires
            old(self)@.entries.len() <= CONSOLE_BUFFER,
            old(self)@.error_count < usize::MAX,
        ensures
            final(self)@.entries.len() <= CONSOLE_BUFFER,
            final(self)@.entries == (
                if old(self)@.entries.len() >= CONSOLE_BUFFER { old(self)@.entries.drop_first() } else { old(self)@.entries }
            ).push(entry),
            final(self)@.error_count == old(self)@.error_count + (if entry.level@ == "error"@ { 1nat } else { 0nat }),
    {
        let level = chars_of(entry.level.as_str());
        let error = chars_of("error");
        if chars_eq(level.as_slice(), error.as_slice()) {
            self.error_count = self.error_count + 1;
        }
        let ghost before = self.entries@;
        if self.entries.len() >= CONSOLE_BUFFER {
            self.entries.remove(0);
            assert(self.entries@ =~= before.drop_first());
        }
        self.entries.push(entry);
    }

    /// Forgets the history, as a main-frame navigation does.
    pub fn clear(&mut self)
        ensures
            final(self)@.entries.len() == 0,
            final(self)@.error_count == 0,
    {
        self.entries = Vec::new();
        self.error_count = 0;
    }

    /// The retained entries, oldest first.
    pub fn entries(&self) -> (r: &[ConsoleEntry])
        ensures
            r@ == self@.entries,
    {
        self.entries.as_slice()
    }

    /// Errors seen since the last navigation.
    pub fn error_count(&self) -> (r: usize)
        ensures
            r == self@.error_count,
    {
        self.error_count
    }
}

/// What a session announces to the surfaces; `S` is the session summary
/// the frontend renders.
#[derive(Debug, Clone, PartialEq, Eq)]
pub enum BrowserSessionEvent<S> {
    /// A screencast frame, base64-encoded JPEG.
    Frame { browser_id: String, data: String, width: u32, height: u32 },
    /// Navigation, title, or load-state change.
    State { browser_id: String, summary: S },
    /// A console message the page produced.
    Console { browser_id: String, entry: ConsoleEntry },
    /// The session's runtime is gone.
    Closed { browser_id: String, reason: String },
    /// The drive lease moved: the presentation that may now drive, if any.
    Lease { browser_id: String, presentation_id: Option<String> },
}

impl<S> BrowserSessionEvent<S> {
    /// The session every event names.
    pub fn browser_id(&self) -> (r: &str)
        ensures
            r@ == match *self {
                BrowserSessionEvent::Frame { browser_id, .. } => browser_id@,
                BrowserSessionEvent::State { browser_id, .. } => browser_id@,
                BrowserSessionEvent::Console { browser_id, .. } => browser_id@,
                BrowserSessionEvent::Closed { browser_id, .. } => browser_id@,
                BrowserSessionEvent::Lease { browser_id, .. } => browser_id@,
            },
    {
        match self {
            BrowserSessionEvent::Frame { browser_id, .. } => browser_id.as_str(),
            BrowserSessionEvent::State { browser_id, .. } => browser_id.as_str(),
            BrowserSessionEvent::Console { browser_id, .. } => browser_id.as_str(),
            BrowserSessionEvent::Closed { browser_id, .. } => browser_id.as_str(),
            BrowserSessionEvent::Lease { browser_id, .. } => browser_id.as_str(),
        }
    }
}

/// What a detach announces: when the drive lease moved to another
/// presentation, that it now drives, so its controls come alive; else
/// nothing.
pub fn lease_handover_event<S>(browser_id: &str, handed_to: Option<String>) -> (r: Option<BrowserSessionEvent<S>>)
    ensures
        match handed_to {
            Some(p) => r matches Some(BrowserSessionEvent::Lease { browser_id: b, presentation_id: Some(q) })
                && b@ == browser_id@ && q@ == p@,
            None => r is None,
        },
{
    match handed_to {
        Some(p) => Some(BrowserSessionEvent::Lease { browser_id: browser_id.to_owned(), presentation_id: Some(p) }),
        None => None,
    }
}

} // verus!
