//! The registry of live browser sessions: how a target names a session, which
//! sessions an agent owns, and which surface requests wait for a listener.
use vstd::prelude::*;

use crate::browser::BrowserError;
use crate::text::{
    all_digits, chars_eq, is_ascii_digit, lemma_decimal_round_trip, lemma_trim_unchanged, chars_of, decimal_chars, into_string, parse_unsigned, parse_unsigned_spec, push_decimal,
    push_slice, push_str_chars, starts_with, str_eq, starts_with_exec, string_from_chars, strings_view, trimmed_chars,
    trim_spec,
};

verus! {

/// What the broker keeps of a live session to find it again.
#[derive(Debug, Clone, PartialEq, Eq)]
pub struct SessionEntry {
    pub browser_id: String,
    /// The session's number in `browser:N`.
    pub short_ref: u32,
    pub owner_agent_id: Option<String>,
}

/// An entry by its view: id, short ref, owner.
pub open spec fn entry_view(e: SessionEntry) -> (Seq<char>, u32, Option<Seq<char>>) {
    (e.browser_id@, e.short_ref, match e.owner_agent_id {
        Some(o) => Some(o@),
        None => None,
    })
}

pub open spec fn entries_view(v: Seq<SessionEntry>) -> Seq<(Seq<char>, u32, Option<Seq<char>>)> {
    v.map_values(|e: SessionEntry| entry_view(e))
}

/// No two sessions share an id or a short ref, and every short ref was
/// handed out before `next`.
pub open spec fn registry_wf(entries: Seq<(Seq<char>, u32, Option<Seq<char>>)>, next: nat) -> bool {
    &&& next >= 1
    &&& forall|i: int, j: int| 0 <= i < j < entries.len() ==> #[trigger] entries[i].0 != #[trigger] entries[j].0
    &&& forall|i: int, j: int| 0 <= i < j < entries.len() ==> #[trigger] entries[i].1 != #[trigger] entries[j].1
    &&& forall|i: int| 0 <= i < entries.len() ==> #[trigger] entries[i].1 < next
}

/// The first index at or after `from` whose entry has the given id, or the length.
pub open spec fn index_of_id(entries: Seq<(Seq<char>, u32, Option<Seq<char>>)>, id: Seq<char>, from: int) -> int
    decreases entries.len() - from,
{
    if from < 0 || from >= entries.len() {
        entries.len() as int
    } else if entries[from].0 == id {
        from
    } else {
        index_of_id(entries, id, from + 1)
    }
}

/// The first index at or after `from` whose entry has the given short ref, or the length.
pub open spec fn index_of_ref(entries: Seq<(Seq<char>, u32, Option<Seq<char>>)>, short_ref: nat, from: int) -> int
    decreases entries.len() - from,
{
    if from < 0 || from >= entries.len() {
        entries.len() as int
    } else if entries[from].1 == short_ref {
        from
    } else {
        index_of_ref(entries, short_ref, from + 1)
    }
}

/// The entries whose id begins with `prefix`, in registry order.
pub open spec fn prefix_matches(entries: Seq<(Seq<char>, u32, Option<Seq<char>>)>, prefix: Seq<char>) -> Seq<(Seq<char>, u32, Option<Seq<char>>)>
    decreases entries.len(),
{
    if entries.len() == 0 {
        Seq::empty()
    } else {
        prefix_matches(entries.drop_last(), prefix) + (if starts_with(entries.last().0, prefix) {
            seq![entries.last()]
        } else {
            Seq::empty()
        })
    }
}

/// `browser:N`.
pub open spec fn short_ref_text(n: nat) -> Seq<char> {
    "browser:"@ + decimal_chars(n)
}

/// Where resolving a target leads, by its view.
pub enum ResolveView {
    Found(Seq<char>),
    NotFound(Seq<char>),
    Ambiguous(Seq<char>, Seq<Seq<char>>),
    Other,
}

pub open spec fn resolve_view(r: Result<String, BrowserError>) -> ResolveView {
    match r {
        Ok(id) => ResolveView::Found(id@),
        Err(BrowserError::NotFound { target }) => ResolveView::NotFound(target@),
        Err(BrowserError::Ambiguous { target, matches }) => ResolveView::Ambiguous(target@, strings_view(matches@)),
        Err(_) => ResolveView::Other,
    }
}

/// A target is trimmed first; empty, it finds nothing. `browser:N` names the
/// session with short ref `N`. Otherwise a full id names its session, and a
/// prefix names the one session whose id begins with it; a prefix that more
/// sessions share is ambiguous and lists their short refs.
pub open spec fn resolve_spec(entries: Seq<(Seq<char>, u32, Option<Seq<char>>)>, target: Seq<char>) -> ResolveView {
    let t = trim_spec(target);
    let rest = t.skip("browser:"@.len() as int);
    if t.len() == 0 {
        ResolveView::NotFound("an empty target"@)
    } else if starts_with(t, "browser:"@) && parse_unsigned_spec(rest, u32::MAX as nat) is Some {
        let k = index_of_ref(entries, parse_unsigned_spec(rest, u32::MAX as nat)->0, 0);
        if k < entries.len() {
            ResolveView::Found(entries[k].0)
        } else {
            ResolveView::NotFound(t)
        }
    } else if index_of_id(entries, t, 0) < entries.len() {
        ResolveView::Found(t)
    } else {
        let m = prefix_matches(entries, t);
        if m.len() == 0 {
            ResolveView::NotFound(t)
        } else if m.len() == 1 {
            ResolveView::Found(m[0].0)
        } else {
            ResolveView::Ambiguous(t, m.map_values(|e: (Seq<char>, u32, Option<Seq<char>>)| short_ref_text(e.1 as nat)))
        }
    }
}


proof fn lemma_index_of_id(entries: Seq<(Seq<char>, u32, Option<Seq<char>>)>, id: Seq<char>, from: int)
    requires
        0 <= from <= entries.len(),
    ensures
        from <= index_of_id(entries, id, from) <= entries.len(),
        index_of_id(entries, id, from) < entries.len() ==> entries[index_of_id(entries, id, from)].0 == id,
        forall|j: int| from <= j < index_of_id(entries, id, from) ==> entries[j].0 != id,
    decreases entries.len() - from,
{
    if from < entries.len() && entries[from].0 != id {
        lemma_index_of_id(entries, id, from + 1);
    }
}

proof fn lemma_index_of_ref(entries: Seq<(Seq<char>, u32, Option<Seq<char>>)>, short_ref: nat, from: int)
    requires
        0 <= from <= entries.len(),
    ensures
        from <= index_of_ref(entries, short_ref, from) <= entries.len(),
        index_of_ref(entries, short_ref, from) < entries.len() ==> entries[index_of_ref(entries, short_ref, from)].1 == short_ref,
        forall|j: int| from <= j < index_of_ref(entries, short_ref, from) ==> entries[j].1 != short_ref,
    decreases entries.len() - from,
{
    if from < entries.len() && entries[from].1 != short_ref {
        lemma_index_of_ref(entries, short_ref, from + 1);
    }
}

/// The characters of `cs` from `start` on.
fn chars_from(cs: &[char], start: usize) -> (r: Vec<char>)
    requires
        start <= cs@.len(),
    ensures
        r@ == cs@.skip(start as int),
{
    let mut out: Vec<char> = Vec::new();
    let mut k: usize = start;
    while k < cs.len()
        invariant
            start <= k <= cs@.len(),
            out@ == cs@.subrange(start as int, k as int),
        decreases cs@.len() - k,
    {
        out.push(cs[k]);
        assert(cs@.subrange(start as int, k + 1) =~= cs@.subrange(start as int, k as int).push(cs@[k as int]));
        k = k + 1;
    }
    assert(cs@.subrange(start as int, cs@.len() as int) =~= cs@.skip(start as int));
    out
}

fn copy_entry(e: &SessionEntry) -> (r: SessionEntry)
    ensures
        r == *e,
{
    SessionEntry {
        browser_id: e.browser_id.clone(),
        short_ref: e.short_ref,
        owner_agent_id: match &e.owner_agent_id {
            Some(o) => Some(o.clone()),
            None => None,
        },
    }
}

fn ref_text(n: u32) -> (r: String)
    ensures
        r@ == short_ref_text(n as nat),
{
    let mut out: Vec<char> = Vec::new();
    push_str_chars(&mut out, "browser:");
    push_decimal(&mut out, n as u64);
    into_string(out)
}

/// The registry after recording a session: an entry with the same id is
/// replaced in place, otherwise the entry joins the end.
pub open spec fn register_spec(entries: Seq<(Seq<char>, u32, Option<Seq<char>>)>, e: (Seq<char>, u32, Option<Seq<char>>)) -> Seq<(Seq<char>, u32, Option<Seq<char>>)> {
    let k = index_of_id(entries, e.0, 0);
    if k < entries.len() {
        entries.update(k, e)
    } else {
        entries.push(e)
    }
}

/// The registry after taking out the session with this id, and what was taken.
pub open spec fn take_spec(entries: Seq<(Seq<char>, u32, Option<Seq<char>>)>, id: Seq<char>) -> (Seq<(Seq<char>, u32, Option<Seq<char>>)>, Option<(Seq<char>, u32, Option<Seq<char>>)>) {
    let k = index_of_id(entries, id, 0);
    if k < entries.len() {
        (entries.remove(k), Some(entries[k]))
    } else {
        (entries, None)
    }
}


/// The entries an agent owns, in registry order.
pub open spec fn owned_by(entries: Seq<(Seq<char>, u32, Option<Seq<char>>)>, agent_id: Seq<char>) -> Seq<(Seq<char>, u32, Option<Seq<char>>)>
    decreases entries.len(),
{
    if entries.len() == 0 {
        Seq::empty()
    } else {
        owned_by(entries.drop_last(), agent_id) + (if entries.last().2 == Some(agent_id) {
            seq![entries.last()]
        } else {
            Seq::empty()
        })
    }
}

/// The entries an agent does not own, in registry order.
pub open spec fn not_owned_by(entries: Seq<(Seq<char>, u32, Option<Seq<char>>)>, agent_id: Seq<char>) -> Seq<(Seq<char>, u32, Option<Seq<char>>)>
    decreases entries.len(),
{
    if entries.len() == 0 {
        Seq::empty()
    } else {
        not_owned_by(entries.drop_last(), agent_id) + (if entries.last().2 != Some(agent_id) {
            seq![entries.last()]
        } else {
            Seq::empty()
        })
    }
}

proof fn lemma_not_owned_by_wf(entries: Seq<(Seq<char>, u32, Option<Seq<char>>)>, agent_id: Seq<char>, next: nat)
    requires
        registry_wf(entries, next),
    ensures
        registry_wf(not_owned_by(entries, agent_id), next),
        forall|x: (Seq<char>, u32, Option<Seq<char>>)| #[trigger] not_owned_by(entries, agent_id).contains(x) ==> entries.contains(x) && x.2 != Some(agent_id),
    decreases entries.len(),
{
    if entries.len() > 0 {
        let init = entries.drop_last();
        assert(registry_wf(init, next)) by {
            assert forall|i: int, j: int| 0 <= i < j < init.len() implies #[trigger] init[i].0 != #[trigger] init[j].0 by {
                assert(init[i] == entries[i] && init[j] == entries[j]);
            }
            assert forall|i: int, j: int| 0 <= i < j < init.len() implies #[trigger] init[i].1 != #[trigger] init[j].1 by {
                assert(init[i] == entries[i] && init[j] == entries[j]);
            }
            assert forall|i: int| 0 <= i < init.len() implies #[trigger] init[i].1 < next by {
                assert(init[i] == entries[i]);
            }
        }
        lemma_not_owned_by_wf(init, agent_id, next);
        let rest = not_owned_by(init, agent_id);
        let last = entries.last();
        assert forall|x: (Seq<char>, u32, Option<Seq<char>>)| init.contains(x) implies entries.contains(x) by {
            let k = choose|k: int| 0 <= k < init.len() && init[k] == x;
            assert(entries[k] == x);
        }
        if last.2 != Some(agent_id) {
            let r = rest + seq![last];
            assert forall|i: int| #![trigger rest[i]] 0 <= i < rest.len() implies rest[i].0 != last.0 && rest[i].1 != last.1 by {
                assert(rest.contains(rest[i]));
                let k = choose|k: int| 0 <= k < entries.len() && entries[k] == rest[i];
                assert(init.contains(rest[i]));
                let k2 = choose|k2: int| 0 <= k2 < init.len() && init[k2] == rest[i];
                assert(entries[k2] == rest[i]);
                assert(entries[entries.len() - 1] == last);
            }
            assert forall|i: int, j: int| 0 <= i < j < r.len() implies #[trigger] r[i].0 != #[trigger] r[j].0 by {
                if j == rest.len() {
                    assert(r[i] == rest[i] && r[j] == last);
                } else {
                    assert(r[i] == rest[i] && r[j] == rest[j]);
                }
            }
            assert forall|i: int, j: int| 0 <= i < j < r.len() implies #[trigger] r[i].1 != #[trigger] r[j].1 by {
                if j == rest.len() {
                    assert(r[i] == rest[i] && r[j] == last);
                } else {
                    assert(r[i] == rest[i] && r[j] == rest[j]);
                }
            }
            assert forall|i: int| 0 <= i < r.len() implies #[trigger] r[i].1 < next by {
                if i == rest.len() {
                    assert(r[i] == last);
                } else {
                    assert(r[i] == rest[i]);
                    assert(rest.contains(rest[i]));
                    let k = choose|k: int| 0 <= k < entries.len() && entries[k] == rest[i];
                }
            }
            assert forall|x: (Seq<char>, u32, Option<Seq<char>>)| #[trigger] r.contains(x) implies entries.contains(x) && x.2 != Some(agent_id) by {
                let k = choose|k: int| 0 <= k < r.len() && r[k] == x;
                if k == rest.len() {
                    assert(entries[entries.len() - 1] == x);
                } else {
                    assert(rest[k] == x);
                    assert(rest.contains(x));
                }
            }
            assert(not_owned_by(entries, agent_id) == r);
        } else {
            assert(not_owned_by(entries, agent_id) =~= rest);
        }
    }
}


/// Strictly increasing short refs.
pub open spec fn sorted_by_ref(v: Seq<(Seq<char>, u32, Option<Seq<char>>)>) -> bool {
    forall|i: int, j: int| 0 <= i < j < v.len() ==> #[trigger] v[i].1 < #[trigger] v[j].1
}

/// The live sessions the broker can resolve, in registration order.
pub struct SessionRegistry {
    entries: Vec<SessionEntry>,
    next_short_ref: u32,
}

impl SessionRegistry {
    pub closed spec fn entries(&self) -> Seq<(Seq<char>, u32, Option<Seq<char>>)> {
        entries_view(self.entries@)
    }

    /// The short ref the next session receives.
    pub closed spec fn next_ref(&self) -> nat {
        self.next_short_ref as nat
    }

    pub open spec fn wf(&self) -> bool {
        registry_wf(self.entries(), self.next_ref())
    }

    /// An empty registry whose first session is `browser:1`.
    pub fn new() -> (r: SessionRegistry)
        ensures
            r.wf(),
            r.entries() == Seq::<(Seq<char>, u32, Option<Seq<char>>)>::empty(),
            r.next_ref() == 1,
    {
        let r = SessionRegistry { entries: Vec::new(), next_short_ref: 1 };
        assert(r.entries() =~= Seq::<(Seq<char>, u32, Option<Seq<char>>)>::empty());
        r
    }

    /// Hands out the next short ref.
    pub fn allocate_short_ref(&mut self) -> (r: u32)
        requires
            old(self).wf(),
            old(self).next_ref() < u32::MAX,
        ensures
            final(self).wf(),
            r == old(self).next_ref(),
            final(self).next_ref() == old(self).next_ref() + 1,
            final(self).entries() == old(self).entries(),
    {
        let r = self.next_short_ref;
        self.next_short_ref = self.next_short_ref + 1;
        r
    }

    /// Records a live session under a short ref handed out earlier that no
    /// other session holds.
    pub fn register(&mut self, entry: SessionEntry)
        requires
            old(self).wf(),
            entry.short_ref < old(self).next_ref(),
            forall|i: int| 0 <= i < old(self).entries().len() && old(self).entries()[i].1 == entry.short_ref
                ==> old(self).entries()[i].0 == entry.browser_id@,
        ensures
            final(self).wf(),
            final(self).next_ref() == old(self).next_ref(),
            final(self).entries() == register_spec(old(self).entries(), entry_view(entry)),
    {
        let ghost es = self.entries();
        let ghost e = entry_view(entry);
        let id = chars_of(entry.browser_id.as_str());
        let k = self.position_of_id(id.as_slice());
        proof { lemma_index_of_id(es, e.0, 0); }
        if k < self.entries.len() {
            self.entries.set(k, entry);
            assert(self.entries() =~= es.update(k as int, e));
        } else {
            self.entries.push(entry);
            assert(self.entries() =~= es.push(e));
        }
        proof { lemma_register_wf(es, self.next_ref(), e); }
    }

    /// Takes out the session with this id, if there is one.
    pub fn take(&mut self, browser_id: &str) -> (r: Option<SessionEntry>)
        requires
            old(self).wf(),
        ensures
            final(self).wf(),
            final(self).next_ref() == old(self).next_ref(),
            final(self).entries() == take_spec(old(self).entries(), browser_id@).0,
            (match r { Some(e) => Some(entry_view(e)), None => None }) == take_spec(old(self).entries(), browser_id@).1,
    {
        let ghost es = self.entries();
        let id = chars_of(browser_id);
        let k = self.position_of_id(id.as_slice());
        proof { lemma_index_of_id(es, browser_id@, 0); }
        if k < self.entries.len() {
            let taken = self.entries.remove(k);
            assert(self.entries() =~= es.remove(k as int));
            proof {
                let ns = self.entries();
                assert forall|i: int, j: int| 0 <= i < j < ns.len() implies #[trigger] ns[i].0 != #[trigger] ns[j].0 by {
                    let oi = if i < k { i } else { i + 1 };
                    let oj = if j < k { j } else { j + 1 };
                    assert(ns[i] == es[oi] && ns[j] == es[oj]);
                }
                assert forall|i: int, j: int| 0 <= i < j < ns.len() implies #[trigger] ns[i].1 != #[trigger] ns[j].1 by {
                    let oi = if i < k { i } else { i + 1 };
                    let oj = if j < k { j } else { j + 1 };
                    assert(ns[i] == es[oi] && ns[j] == es[oj]);
                }
                assert forall|i: int| 0 <= i < ns.len() implies #[trigger] ns[i].1 < self.next_ref() by {
                    let oi = if i < k { i } else { i + 1 };
                    assert(ns[i] == es[oi]);
                }
            }
            Some(taken)
        } else {
            None
        }
    }

    /// Closes the session a target names: takes it out and hands it over with
    /// its id, for its runtime to be shut down and its closure announced. A
    /// target that names no session is refused as `resolve` refuses it, and
    /// nothing is taken.
    pub fn close(&mut self, target: &str) -> (r: Result<(String, Option<SessionEntry>), BrowserError>)
        requires
            old(self).wf(),
        ensures
            final(self).wf(),
            final(self).next_ref() == old(self).next_ref(),
            match resolve_spec(old(self).entries(), target@) {
                ResolveView::Found(id) => r matches Ok((b, taken)) && b@ == id && taken is Some
                    && final(self).entries() == take_spec(old(self).entries(), id).0
                    && (match taken { Some(e) => Some(entry_view(e)), None => None }) == take_spec(old(self).entries(), id).1,
                _ => final(self).entries() == old(self).entries()
                    && (r matches Err(e) && resolve_view(Err(e)) == resolve_spec(old(self).entries(), target@)),
            },
    {
        let ghost es = self.entries();
        match self.resolve(target) {
            Err(e) => Err(e),
            Ok(id) => {
                proof {
                    lemma_resolved_is_registered(es, target@);
                    let k = choose|k: int| 0 <= k < es.len() && #[trigger] es[k].0 == id@;
                    lemma_index_of_id(es, id@, 0);
                }
                let taken = self.take(id.as_str());
                Ok((id, taken))
            },
        }
    }

    /// Takes out every session an agent owns, and hands them over in
    /// registry order.
    pub fn take_owned_by(&mut self, agent_id: &str) -> (r: Vec<SessionEntry>)
        requires
            old(self).wf(),
        ensures
            final(self).wf(),
            final(self).next_ref() == old(self).next_ref(),
            entries_view(r@) == owned_by(old(self).entries(), agent_id@),
            final(self).entries() == not_owned_by(old(self).entries(), agent_id@),
    {
        let ghost es = self.entries();
        let mut owned: Vec<SessionEntry> = Vec::new();
        let mut kept: Vec<SessionEntry> = Vec::new();
        let mut i: usize = 0;
        while i < self.entries.len()
            invariant
                i <= self.entries@.len(),
                es == entries_view(self.entries@),
                entries_view(owned@) == owned_by(es.take(i as int), agent_id@),
                entries_view(kept@) == not_owned_by(es.take(i as int), agent_id@),
            decreases self.entries@.len() - i,
        {
            let ghost o = entries_view(owned@);
            let ghost k = entries_view(kept@);
            assert(es[i as int] == entry_view(self.entries@[i as int]));
            assert(es.take(i + 1).drop_last() =~= es.take(i as int));
            let is_owner = match &self.entries[i].owner_agent_id {
                Some(owner) => str_eq(owner.as_str(), agent_id),
                None => false,
            };
            if is_owner {
                owned.push(copy_entry(&self.entries[i]));
                assert(entries_view(owned@) =~= o + seq![es[i as int]]);
                assert(entries_view(kept@) =~= k + Seq::<(Seq<char>, u32, Option<Seq<char>>)>::empty());
            } else {
                kept.push(copy_entry(&self.entries[i]));
                assert(entries_view(kept@) =~= k + seq![es[i as int]]);
                assert(entries_view(owned@) =~= o + Seq::<(Seq<char>, u32, Option<Seq<char>>)>::empty());
            }
            i = i + 1;
        }
        assert(es.take(self.entries@.len() as int) =~= es);
        proof { lemma_not_owned_by_wf(es, agent_id@, self.next_ref()); }
        self.entries = kept;
        owned
    }

    /// Every session ordered by short ref, so listings are stable: the same
    /// sessions, each once, refs increasing.
    pub fn ordered(&self) -> (r: Vec<SessionEntry>)
        requires
            self.wf(),
        ensures
            entries_view(r@).len() == self.entries().len(),
            sorted_by_ref(entries_view(r@)),
            forall|x: (Seq<char>, u32, Option<Seq<char>>)| entries_view(r@).contains(x) <==> self.entries().contains(x),
    {
        let ghost es = self.entries();
        let mut out: Vec<SessionEntry> = Vec::new();
        let mut i: usize = 0;
        while i < self.entries.len()
            invariant
                i <= self.entries@.len(),
                es == entries_view(self.entries@),
                registry_wf(es, self.next_ref()),
                entries_view(out@).len() == i,
                sorted_by_ref(entries_view(out@)),
                forall|x: (Seq<char>, u32, Option<Seq<char>>)|
                    #![trigger entries_view(out@).contains(x)]
                    #![trigger es.take(i as int).contains(x)]
                    entries_view(out@).contains(x) <==> es.take(i as int).contains(x),
            decreases self.entries@.len() - i,
        {
            let ghost ov = entries_view(out@);
            let ghost e = es[i as int];
            assert(e == entry_view(self.entries@[i as int]));
            let r = self.entries[i].short_ref;
            let mut p: usize = 0;
            while p < out.len() && out[p].short_ref <= r
                invariant
                    p <= out@.len(),
                    ov == entries_view(out@),
                    forall|k: int| 0 <= k < p ==> #[trigger] ov[k].1 <= r,
                    r == e.1,
                    i < es.len(),
                    e == es[i as int],
                    registry_wf(es, self.next_ref()),
                    ov.len() == i,
                    sorted_by_ref(ov),
                    forall|x: (Seq<char>, u32, Option<Seq<char>>)|
                        #![trigger ov.contains(x)]
                        #![trigger es.take(i as int).contains(x)]
                        ov.contains(x) <==> es.take(i as int).contains(x),
                decreases out@.len() - p,
            {
                assert(ov[p as int] == entry_view(out@[p as int]));
                p = p + 1;
            }
            proof {
                if p < out@.len() {
                    assert(ov[p as int] == entry_view(out@[p as int]));
                }
                assert forall|k: int| 0 <= k < ov.len() implies #[trigger] ov[k].1 != e.1 by {
                    assert(ov.contains(ov[k]));
                    assert(es.take(i as int).contains(ov[k]));
                    let t0 = es.take(i as int);
                    let m = choose|m: int| 0 <= m < t0.len() && #[trigger] t0[m] == ov[k];
                    assert(es[m] == ov[k]);
                }
            }
            out.insert(p, copy_entry(&self.entries[i]));
            proof {
                let nv = entries_view(out@);
                assert(nv =~= ov.insert(p as int, e));
                assert forall|a: int, b: int| 0 <= a < b < nv.len() implies #[trigger] nv[a].1 < #[trigger] nv[b].1 by {
                    if b < p {
                    } else if b == p {
                        assert(ov[a].1 <= r && ov[a].1 != e.1);
                    } else if a < p {
                        assert(ov[a].1 <= r && ov[a].1 != e.1);
                        assert(ov[p as int].1 > r);
                        if b - 1 > p {
                            assert(ov[p as int].1 < ov[b - 1].1);
                        }
                    } else if a == p {
                        assert(ov[p as int].1 > r);
                        if b - 1 > p {
                            assert(ov[p as int].1 < ov[b - 1].1);
                        }
                    } else {
                        assert(nv[a] == ov[a - 1] && nv[b] == ov[b - 1]);
                    }
                }
                assert(es.take(i + 1) =~= es.take(i as int).push(e));
                assert forall|x: (Seq<char>, u32, Option<Seq<char>>)| nv.contains(x) <==> es.take(i + 1).contains(x) by {
                    if nv.contains(x) {
                        let k = choose|k: int| 0 <= k < nv.len() && nv[k] == x;
                        if k < p {
                            assert(ov[k] == x && ov.contains(x));
                        } else if k > p {
                            assert(ov[k - 1] == x && ov.contains(x));
                        }
                        assert(es.take(i + 1)[i as int] == e);
                    }
                    if es.take(i + 1).contains(x) {
                        let t1 = es.take(i + 1);
                        let k = choose|k: int| 0 <= k < t1.len() && #[trigger] t1[k] == x;
                        if k < i {
                            assert(es.take(i as int)[k] == x);
                            assert(es.take(i as int).contains(x));
                            let m = choose|m: int| 0 <= m < ov.len() && ov[m] == x;
                            if m < p {
                                assert(nv[m] == x);
                            } else {
                                assert(nv[m + 1] == x);
                            }
                        } else {
                            assert(nv[p as int] == x);
                        }
                    }
                }
            }
            i = i + 1;
        }
        assert(es.take(self.entries@.len() as int) =~= es);
        out
    }

    /// The sessions whose id begins with `prefix`, in registry order.
    fn matching_prefix(&self, prefix: &[char]) -> (r: Vec<SessionEntry>)
        ensures
            entries_view(r@) == prefix_matches(self.entries(), prefix@),
    {
        let ghost es = self.entries();
        let mut out: Vec<SessionEntry> = Vec::new();
        let mut i: usize = 0;
        while i < self.entries.len()
            invariant
                i <= self.entries@.len(),
                es == entries_view(self.entries@),
                entries_view(out@) == prefix_matches(es.take(i as int), prefix@),
            decreases self.entries@.len() - i,
        {
            let ghost before = entries_view(out@);
            let cs = chars_of(self.entries[i].browser_id.as_str());
            assert(es[i as int] == entry_view(self.entries@[i as int]));
            assert(es.take(i + 1).drop_last() =~= es.take(i as int));
            if starts_with_exec(cs.as_slice(), prefix) {
                out.push(copy_entry(&self.entries[i]));
                assert(entries_view(out@) =~= before + seq![es[i as int]]);
            } else {
                assert(entries_view(out@) =~= before + Seq::<(Seq<char>, u32, Option<Seq<char>>)>::empty());
            }
            i = i + 1;
        }
        assert(es.take(self.entries@.len() as int) =~= es);
        out
    }

    /// The id of the session a target names: see `resolve_spec`.
    pub fn resolve(&self, target: &str) -> (r: Result<String, BrowserError>)
        ensures
            resolve_view(r) == resolve_spec(self.entries(), target@),
    {
        let ghost es = self.entries();
        let t = trimmed_chars(target);
        if t.len() == 0 {
            return Err(BrowserError::NotFound { target: "an empty target".to_owned() });
        }
        let prefix = chars_of("browser:");
        if starts_with_exec(t.as_slice(), prefix.as_slice()) {
            let rest = chars_from(t.as_slice(), prefix.len());
            match parse_unsigned(rest.as_slice(), 4294967295u64) {
                Some(n) => {
                    let k = self.position_of_ref(n as u32);
                    proof { lemma_index_of_ref(es, n as nat, 0); }
                    if k < self.entries.len() {
                        assert(es[k as int] == entry_view(self.entries@[k as int]));
                        return Ok(self.entries[k].browser_id.clone());
                    }
                    return Err(BrowserError::NotFound { target: string_from_chars(t.as_slice()) });
                },
                None => {},
            }
        }
        let k = self.position_of_id(t.as_slice());
        if k < self.entries.len() {
            return Ok(string_from_chars(t.as_slice()));
        }
        let m = self.matching_prefix(t.as_slice());
        if m.len() == 0 {
            Err(BrowserError::NotFound { target: string_from_chars(t.as_slice()) })
        } else if m.len() == 1 {
            assert(entries_view(m@)[0] == entry_view(m@[0]));
            Ok(m[0].browser_id.clone())
        } else {
            let ghost mv = entries_view(m@);
            let mut refs: Vec<String> = Vec::new();
            let mut j: usize = 0;
            while j < m.len()
                invariant
                    j <= m@.len(),
                    mv == entries_view(m@),
                    strings_view(refs@) == mv.map_values(|e: (Seq<char>, u32, Option<Seq<char>>)| short_ref_text(e.1 as nat)).take(j as int),
                decreases m@.len() - j,
            {
                let ghost before = strings_view(refs@);
                refs.push(ref_text(m[j].short_ref));
                assert(mv[j as int] == entry_view(m@[j as int]));
                assert(strings_view(refs@) =~= before.push(short_ref_text(m@[j as int].short_ref as nat)));
                assert(mv.map_values(|e: (Seq<char>, u32, Option<Seq<char>>)| short_ref_text(e.1 as nat)).take(j + 1)
                    =~= mv.map_values(|e: (Seq<char>, u32, Option<Seq<char>>)| short_ref_text(e.1 as nat)).take(j as int).push(short_ref_text(mv[j as int].1 as nat)));
                j = j + 1;
            }
            assert(mv.map_values(|e: (Seq<char>, u32, Option<Seq<char>>)| short_ref_text(e.1 as nat)).take(m@.len() as int)
                =~= mv.map_values(|e: (Seq<char>, u32, Option<Seq<char>>)| short_ref_text(e.1 as nat)));
            Err(BrowserError::Ambiguous { target: string_from_chars(t.as_slice()), matches: refs })
        }
    }

    /// The index of the session with this id, or the count when there is none.
    fn position_of_id(&self, id: &[char]) -> (r: usize)
        ensures
            r == index_of_id(self.entries(), id@, 0),
    {
        let ghost es = self.entries();
        let mut i: usize = 0;
        while i < self.entries.len()
            invariant
                i <= self.entries@.len(),
                es == entries_view(self.entries@),
                index_of_id(es, id@, 0) == index_of_id(es, id@, i as int),
            decreases self.entries@.len() - i,
        {
            let cs = chars_of(self.entries[i].browser_id.as_str());
            assert(es[i as int] == entry_view(self.entries@[i as int]));
            if chars_eq(cs.as_slice(), id) {
                return i;
            }
            i = i + 1;
        }
        i
    }

    /// The index of the session with this short ref, or the count when there is none.
    fn position_of_ref(&self, short_ref: u32) -> (r: usize)
        ensures
            r == index_of_ref(self.entries(), short_ref as nat, 0),
    {
        let ghost es = self.entries();
        let mut i: usize = 0;
        while i < self.entries.len()
            invariant
                i <= self.entries@.len(),
                es == entries_view(self.entries@),
                index_of_ref(es, short_ref as nat, 0) == index_of_ref(es, short_ref as nat, i as int),
            decreases self.entries@.len() - i,
        {
            assert(es[i as int] == entry_view(self.entries@[i as int]));
            if self.entries[i].short_ref == short_ref {
                return i;
            }
            i = i + 1;
        }
        i
    }
}

proof fn lemma_prefix_matches_in(entries: Seq<(Seq<char>, u32, Option<Seq<char>>)>, prefix: Seq<char>)
    ensures
        forall|x: (Seq<char>, u32, Option<Seq<char>>)| #[trigger] prefix_matches(entries, prefix).contains(x) ==> entries.contains(x),
    decreases entries.len(),
{
    if entries.len() > 0 {
        let init = entries.drop_last();
        lemma_prefix_matches_in(init, prefix);
        let m = prefix_matches(entries, prefix);
        let mi = prefix_matches(init, prefix);
        assert forall|x: (Seq<char>, u32, Option<Seq<char>>)| #[trigger] m.contains(x) implies entries.contains(x) by {
            let k = choose|k: int| 0 <= k < m.len() && m[k] == x;
            if k < mi.len() {
                assert(mi[k] == x && mi.contains(x));
                let j = choose|j: int| 0 <= j < init.len() && init[j] == x;
                assert(entries[j] == x);
            } else {
                assert(entries[entries.len() - 1] == x);
            }
        }
    }
}

/// Whatever a target resolves to is the id of a registered session.
proof fn lemma_resolved_is_registered(entries: Seq<(Seq<char>, u32, Option<Seq<char>>)>, target: Seq<char>)
    ensures
        resolve_spec(entries, target) is Found ==> exists|k: int| 0 <= k < entries.len() && #[trigger] entries[k].0 == resolve_spec(entries, target)->Found_0,
{
    let t = trim_spec(target);
    let rest = t.skip("browser:"@.len() as int);
    if t.len() == 0 {
    } else if starts_with(t, "browser:"@) && parse_unsigned_spec(rest, u32::MAX as nat) is Some {
        lemma_index_of_ref(entries, parse_unsigned_spec(rest, u32::MAX as nat)->0, 0);
        let k = index_of_ref(entries, parse_unsigned_spec(rest, u32::MAX as nat)->0, 0);
        if k < entries.len() {
            assert(entries[k].0 == resolve_spec(entries, target)->Found_0);
        }
    } else if index_of_id(entries, t, 0) < entries.len() {
        lemma_index_of_id(entries, t, 0);
        let k = index_of_id(entries, t, 0);
        assert(entries[k].0 == resolve_spec(entries, target)->Found_0);
    } else {
        let m = prefix_matches(entries, t);
        if m.len() == 1 {
            lemma_prefix_matches_in(entries, t);
            assert(m.contains(m[0]));
            let k = choose|k: int| 0 <= k < entries.len() && entries[k] == m[0];
            assert(entries[k].0 == resolve_spec(entries, target)->Found_0);
        }
    }
}

proof fn lemma_register_wf(entries: Seq<(Seq<char>, u32, Option<Seq<char>>)>, next: nat, e: (Seq<char>, u32, Option<Seq<char>>))
    requires
        registry_wf(entries, next),
        e.1 < next,
        forall|i: int| 0 <= i < entries.len() && entries[i].1 == e.1 ==> entries[i].0 == e.0,
    ensures
        registry_wf(register_spec(entries, e), next),
{
    lemma_index_of_id(entries, e.0, 0);
    let k = index_of_id(entries, e.0, 0);
    let ns = register_spec(entries, e);
    assert forall|i: int, j: int| 0 <= i < j < ns.len() implies #[trigger] ns[i].0 != #[trigger] ns[j].0 by {
        if k < entries.len() {
            if i != k && j != k {
                assert(ns[i] == entries[i] && ns[j] == entries[j]);
            }
        } else if j == entries.len() {
            assert(ns[i] == entries[i]);
        } else {
            assert(ns[i] == entries[i] && ns[j] == entries[j]);
        }
    }
    assert forall|i: int, j: int| 0 <= i < j < ns.len() implies #[trigger] ns[i].1 != #[trigger] ns[j].1 by {
        if k < entries.len() {
            if i == k {
                assert(ns[j] == entries[j]);
            } else if j == k {
                assert(ns[i] == entries[i]);
            } else {
                assert(ns[i] == entries[i] && ns[j] == entries[j]);
            }
        } else if j == entries.len() {
            assert(ns[i] == entries[i]);
        } else {
            assert(ns[i] == entries[i] && ns[j] == entries[j]);
        }
    }
    assert forall|i: int| 0 <= i < ns.len() implies #[trigger] ns[i].1 < next by {
        if i != k && i < entries.len() {
            assert(ns[i] == entries[i]);
        }
    }
}

/// A session registered under a short ref is what `browser:N` of that ref
/// resolves to.
pub proof fn law_a_registered_session_resolves_by_its_short_ref(
    entries: Seq<(Seq<char>, u32, Option<Seq<char>>)>,
    next: nat,
    e: (Seq<char>, u32, Option<Seq<char>>),
)
    requires
        registry_wf(entries, next),
        e.1 < next,
        forall|i: int| 0 <= i < entries.len() && entries[i].1 == e.1 ==> entries[i].0 == e.0,
    ensures
        resolve_spec(register_spec(entries, e), short_ref_text(e.1 as nat)) == ResolveView::Found(e.0),
{
    lemma_register_wf(entries, next, e);
    lemma_index_of_id(entries, e.0, 0);
    let ns = register_spec(entries, e);
    let text = short_ref_text(e.1 as nat);
    let digits = decimal_chars(e.1 as nat);
    reveal_strlit("browser:");
    lemma_decimal_round_trip(e.1 as nat);
    assert(text.last() == digits.last());
    assert(is_ascii_digit(digits[digits.len() - 1]));
    lemma_trim_unchanged(text);
    assert(text.subrange(0, "browser:"@.len() as int) =~= "browser:"@);
    assert(text.skip("browser:"@.len() as int) =~= digits);
    assert(digits[0] != '+') by {
        assert(is_ascii_digit(digits[0]));
    }
    assert(parse_unsigned_spec(digits, u32::MAX as nat) == Some(e.1 as nat));
    let p = if index_of_id(entries, e.0, 0) < entries.len() { index_of_id(entries, e.0, 0) } else { entries.len() as int };
    assert(ns[p] == e);
    lemma_index_of_ref(ns, e.1 as nat, 0);
    let r = index_of_ref(ns, e.1 as nat, 0);
    if r < ns.len() {
        if r != p {
            if r < p {
                assert(ns[r].1 != ns[p].1);
            } else {
                assert(ns[p].1 != ns[r].1);
            }
        }
    }
}

/// Once a session is taken out, no target resolves to it again.
pub proof fn law_a_taken_session_is_never_resolved(
    entries: Seq<(Seq<char>, u32, Option<Seq<char>>)>,
    next: nat,
    browser_id: Seq<char>,
    target: Seq<char>,
)
    requires
        registry_wf(entries, next),
    ensures
        resolve_spec(take_spec(entries, browser_id).0, target) != ResolveView::Found(browser_id),
{
    lemma_index_of_id(entries, browser_id, 0);
    let k = index_of_id(entries, browser_id, 0);
    let ns = take_spec(entries, browser_id).0;
    assert forall|j: int| 0 <= j < ns.len() implies #[trigger] ns[j].0 != browser_id by {
        if k < entries.len() {
            if j < k {
                assert(ns[j] == entries[j]);
            } else {
                assert(ns[j] == entries[j + 1]);
                assert(entries[k].0 != entries[j + 1].0);
            }
        } else {
            assert(ns[j] == entries[j]);
        }
    }
    lemma_resolved_is_registered(ns, target);
}

/// Closing a session twice finds it only once: the first take hands it
/// over, and a second take of the same id finds nothing, so its closure is
/// announced once.
pub proof fn law_a_session_is_taken_at_most_once(
    entries: Seq<(Seq<char>, u32, Option<Seq<char>>)>,
    next: nat,
    browser_id: Seq<char>,
)
    requires
        registry_wf(entries, next),
    ensures
        take_spec(take_spec(entries, browser_id).0, browser_id).1 is None,
        (exists|k: int| 0 <= k < entries.len() && #[trigger] entries[k].0 == browser_id) ==> take_spec(entries, browser_id).1 is Some,
{
    lemma_index_of_id(entries, browser_id, 0);
    let k = index_of_id(entries, browser_id, 0);
    let ns = take_spec(entries, browser_id).0;
    assert forall|j: int| 0 <= j < ns.len() implies #[trigger] ns[j].0 != browser_id by {
        if k < entries.len() {
            if j < k {
                assert(ns[j] == entries[j]);
            } else {
                assert(ns[j] == entries[j + 1]);
                assert(entries[k].0 != entries[j + 1].0);
            }
        } else {
            assert(ns[j] == entries[j]);
        }
    }
    lemma_index_of_id(ns, browser_id, 0);
    if index_of_id(ns, browser_id, 0) < ns.len() {
        assert(ns[index_of_id(ns, browser_id, 0)].0 == browser_id);
    }
}

/// Closing a session twice announces its closure once: the first close of
/// a target that names a session takes it out, and closing the same target
/// again finds that session no more.
pub proof fn law_closing_twice_takes_the_session_once(
    entries: Seq<(Seq<char>, u32, Option<Seq<char>>)>,
    next: nat,
    target: Seq<char>,
)
    requires
        registry_wf(entries, next),
        resolve_spec(entries, target) is Found,
    ensures
        take_spec(entries, resolve_spec(entries, target)->Found_0).1 is Some,
        resolve_spec(take_spec(entries, resolve_spec(entries, target)->Found_0).0, target)
            != ResolveView::Found(resolve_spec(entries, target)->Found_0),
{
    let id = resolve_spec(entries, target)->Found_0;
    lemma_resolved_is_registered(entries, target);
    law_a_session_is_taken_at_most_once(entries, next, id);
    law_a_taken_session_is_never_resolved(entries, next, id, target);
}

/// When an agent stops, none of the sessions it owned is left.
pub proof fn law_no_session_of_a_stopped_agent_remains(
    entries: Seq<(Seq<char>, u32, Option<Seq<char>>)>,
    next: nat,
    agent_id: Seq<char>,
)
    requires
        registry_wf(entries, next),
    ensures
        forall|i: int| 0 <= i < not_owned_by(entries, agent_id).len()
            ==> #[trigger] not_owned_by(entries, agent_id)[i].2 != Some(agent_id),
{
    lemma_not_owned_by_wf(entries, agent_id, next);
    let rest = not_owned_by(entries, agent_id);
    assert forall|i: int| 0 <= i < rest.len() implies #[trigger] rest[i].2 != Some(agent_id) by {
        assert(rest.contains(rest[i]));
    }
}

/// Ceiling on surface requests queued before the frontend first listens.
pub const MAX_PENDING_SURFACE_OPENS: usize = 32;

/// The queue after a request for a surface: nothing changes once the
/// listener is ready or when the session is already queued; otherwise the
/// session joins the end, and when the queue is full its oldest request
/// leaves first.
pub open spec fn queue_spec(ready: bool, queued: Seq<Seq<char>>, browser_id: Seq<char>) -> Seq<Seq<char>> {
    if ready || queued.contains(browser_id) {
        queued
    } else if queued.len() >= MAX_PENDING_SURFACE_OPENS {
        queued.drop_first().push(browser_id)
    } else {
        queued.push(browser_id)
    }
}

/// The queued sessions that are still registered, in queue order.
pub open spec fn still_live(queued: Seq<Seq<char>>, entries: Seq<(Seq<char>, u32, Option<Seq<char>>)>) -> Seq<Seq<char>>
    decreases queued.len(),
{
    if queued.len() == 0 {
        Seq::empty()
    } else {
        still_live(queued.drop_last(), entries) + (if index_of_id(entries, queued.last(), 0) < entries.len() {
            seq![queued.last()]
        } else {
            Seq::empty()
        })
    }
}

/// The queue without one session.
pub open spec fn without(queued: Seq<Seq<char>>, browser_id: Seq<char>) -> Seq<Seq<char>>
    decreases queued.len(),
{
    if queued.len() == 0 {
        Seq::empty()
    } else {
        without(queued.drop_last(), browser_id) + (if queued.last() != browser_id {
            seq![queued.last()]
        } else {
            Seq::empty()
        })
    }
}

/// At most the ceiling, each session once.
pub open spec fn pending_wf(queued: Seq<Seq<char>>) -> bool {
    &&& queued.len() <= MAX_PENDING_SURFACE_OPENS
    &&& forall|i: int, j: int| 0 <= i < j < queued.len() ==> #[trigger] queued[i] != #[trigger] queued[j]
}

/// Sessions that asked for a workbench surface before the frontend first
/// listened, until the frontend acknowledges them.
pub struct PendingSurfaceOpens {
    listener_ready: bool,
    queued: Vec<String>,
}

impl PendingSurfaceOpens {
    pub closed spec fn ready(&self) -> bool {
        self.listener_ready
    }

    pub closed spec fn queued(&self) -> Seq<Seq<char>> {
        strings_view(self.queued@)
    }

    pub open spec fn wf(&self) -> bool {
        pending_wf(self.queued())
    }

    /// Nothing queued, no listener yet.
    pub fn new() -> (r: PendingSurfaceOpens)
        ensures
            r.wf(),
            !r.ready(),
            r.queued() == Seq::<Seq<char>>::empty(),
    {
        let r = PendingSurfaceOpens { listener_ready: false, queued: Vec::new() };
        assert(r.queued() =~= Seq::<Seq<char>>::empty());
        r
    }

    fn position(&self, browser_id: &str) -> (r: usize)
        ensures
            r <= self.queued().len(),
            r < self.queued().len() ==> self.queued()[r as int] == browser_id@,
            r == self.queued().len() ==> !self.queued().contains(browser_id@),
    {
        let ghost q = self.queued();
        let mut i: usize = 0;
        while i < self.queued.len()
            invariant
                i <= self.queued@.len(),
                q == strings_view(self.queued@),
                forall|k: int| 0 <= k < i ==> q[k] != browser_id@,
            decreases self.queued@.len() - i,
        {
            if str_eq(self.queued[i].as_str(), browser_id) {
                return i;
            }
            i = i + 1;
        }
        i
    }

    /// Records a session that still needs a surface; see `queue_spec`.
    pub fn queue(&mut self, browser_id: String)
        requires
            old(self).wf(),
        ensures
            final(self).wf(),
            final(self).ready() == old(self).ready(),
            final(self).queued() == queue_spec(old(self).ready(), old(self).queued(), browser_id@),
    {
        if self.listener_ready {
            return;
        }
        let ghost before = self.queued();
        let ghost id = browser_id@;
        if self.position(browser_id.as_str()) < self.queued.len() {
            return;
        }
        if self.queued.len() >= MAX_PENDING_SURFACE_OPENS {
            self.queued.remove(0);
            assert(self.queued() =~= before.drop_first());
        }
        let ghost middle = self.queued();
        self.queued.push(browser_id);
        assert(self.queued() =~= middle.push(id));
        proof {
            let nq = self.queued();
            assert forall|i: int, j: int| 0 <= i < j < nq.len() implies #[trigger] nq[i] != #[trigger] nq[j] by {
                if before.len() >= MAX_PENDING_SURFACE_OPENS {
                    if j == nq.len() - 1 {
                        assert(nq[i] == before[i + 1]);
                    } else {
                        assert(nq[i] == before[i + 1] && nq[j] == before[j + 1]);
                    }
                } else if j < before.len() {
                    assert(nq[i] == before[i] && nq[j] == before[j]);
                } else {
                    assert(nq[i] == before[i]);
                }
            }
        }
    }

    /// The queued sessions that are still open, without consuming them: the
    /// frontend acknowledges each once its surface exists. Sessions that have
    /// closed leave the queue, and the listener counts as ready from now on.
    pub fn pending(&mut self, live: &SessionRegistry) -> (r: Vec<String>)
        requires
            old(self).wf(),
        ensures
            final(self).wf(),
            final(self).ready(),
            strings_view(r@) == still_live(old(self).queued(), live.entries()),
            final(self).queued() == still_live(old(self).queued(), live.entries()),
    {
        self.listener_ready = true;
        let ghost q = self.queued();
        let ghost es = live.entries();
        let mut kept: Vec<String> = Vec::new();
        let mut out: Vec<String> = Vec::new();
        let mut i: usize = 0;
        while i < self.queued.len()
            invariant
                i <= self.queued@.len(),
                q == strings_view(self.queued@),
                es == live.entries(),
                strings_view(kept@) == still_live(q.take(i as int), es),
                strings_view(out@) == still_live(q.take(i as int), es),
            decreases self.queued@.len() - i,
        {
            let ghost k0 = strings_view(kept@);
            let ghost o0 = strings_view(out@);
            assert(q.take(i + 1).drop_last() =~= q.take(i as int));
            assert(q.take(i + 1).last() == q[i as int]);
            let cs = chars_of(self.queued[i].as_str());
            let k = live.position_of_id(cs.as_slice());
            if k < live.entries.len() {
                kept.push(self.queued[i].clone());
                out.push(self.queued[i].clone());
                assert(strings_view(kept@) =~= k0 + seq![q[i as int]]);
                assert(strings_view(out@) =~= o0 + seq![q[i as int]]);
            } else {
                assert(strings_view(kept@) =~= k0 + Seq::<Seq<char>>::empty());
                assert(strings_view(out@) =~= o0 + Seq::<Seq<char>>::empty());
            }
            i = i + 1;
        }
        assert(q.take(q.len() as int) =~= q);
        proof { lemma_still_live_wf(q, es); }
        self.queued = kept;
        out
    }

    /// The frontend has opened this session's surface: it leaves the queue.
    pub fn acknowledge(&mut self, browser_id: &str)
        requires
            old(self).wf(),
        ensures
            final(self).wf(),
            final(self).ready() == old(self).ready(),
            final(self).queued() == without(old(self).queued(), browser_id@),
    {
        let ghost q = self.queued();
        let mut kept: Vec<String> = Vec::new();
        let mut i: usize = 0;
        while i < self.queued.len()
            invariant
                i <= self.queued@.len(),
                q == strings_view(self.queued@),
                strings_view(kept@) == without(q.take(i as int), browser_id@),
            decreases self.queued@.len() - i,
        {
            let ghost k0 = strings_view(kept@);
            assert(q.take(i + 1).drop_last() =~= q.take(i as int));
            assert(q.take(i + 1).last() == q[i as int]);
            if !str_eq(self.queued[i].as_str(), browser_id) {
                kept.push(self.queued[i].clone());
                assert(strings_view(kept@) =~= k0 + seq![q[i as int]]);
            } else {
                assert(strings_view(kept@) =~= k0 + Seq::<Seq<char>>::empty());
            }
            i = i + 1;
        }
        assert(q.take(q.len() as int) =~= q);
        proof { lemma_without_wf(q, browser_id@); }
        self.queued = kept;
    }
}

proof fn lemma_still_live_wf(queued: Seq<Seq<char>>, entries: Seq<(Seq<char>, u32, Option<Seq<char>>)>)
    requires
        pending_wf(queued),
    ensures
        pending_wf(still_live(queued, entries)),
        still_live(queued, entries).len() <= queued.len(),
        forall|x: Seq<char>| #[trigger] still_live(queued, entries).contains(x) ==> queued.contains(x),
    decreases queued.len(),
{
    if queued.len() > 0 {
        let init = queued.drop_last();
        assert forall|i: int, j: int| 0 <= i < j < init.len() implies #[trigger] init[i] != #[trigger] init[j] by {
            assert(init[i] == queued[i] && init[j] == queued[j]);
        }
        lemma_still_live_wf(init, entries);
        let keep = index_of_id(entries, queued.last(), 0) < entries.len();
        lemma_appended_wf(init, queued, still_live(init, entries), keep);
        assert(still_live(queued, entries) == appended(still_live(init, entries), queued.last(), keep));
    }
}

proof fn lemma_without_wf(queued: Seq<Seq<char>>, id: Seq<char>)
    requires
        pending_wf(queued),
    ensures
        pending_wf(without(queued, id)),
        without(queued, id).len() <= queued.len(),
        forall|x: Seq<char>| #[trigger] without(queued, id).contains(x) ==> queued.contains(x) && x != id,
    decreases queued.len(),
{
    if queued.len() > 0 {
        let init = queued.drop_last();
        assert forall|i: int, j: int| 0 <= i < j < init.len() implies #[trigger] init[i] != #[trigger] init[j] by {
            assert(init[i] == queued[i] && init[j] == queued[j]);
        }
        lemma_without_wf(init, id);
        let rest = without(init, id);
        lemma_appended_wf(init, queued, rest, queued.last() != id);
        let r = without(queued, id);
        assert(r == appended(rest, queued.last(), queued.last() != id));
        assert forall|x: Seq<char>| #[trigger] r.contains(x) implies x != id by {
            let k = choose|k: int| 0 <= k < r.len() && r[k] == x;
            if k < rest.len() {
                assert(rest[k] == x && rest.contains(x));
            }
        }
    }
}

pub open spec fn appended(rest: Seq<Seq<char>>, last: Seq<char>, keep: bool) -> Seq<Seq<char>> {
    rest + (if keep { seq![last] } else { Seq::empty() })
}

/// A filtered prefix with the last element kept or not stays duplicate-free.
proof fn lemma_appended_wf(init: Seq<Seq<char>>, queued: Seq<Seq<char>>, rest: Seq<Seq<char>>, keep: bool)
    requires
        queued.len() > 0,
        init == queued.drop_last(),
        pending_wf(queued),
        pending_wf(rest),
        rest.len() <= init.len(),
        forall|x: Seq<char>| #[trigger] rest.contains(x) ==> init.contains(x),
    ensures
        pending_wf(appended(rest, queued.last(), keep)),
        appended(rest, queued.last(), keep).len() <= queued.len(),
        forall|x: Seq<char>| #[trigger] appended(rest, queued.last(), keep).contains(x) ==> queued.contains(x),
{
    let r = appended(rest, queued.last(), keep);
    assert forall|x: Seq<char>| init.contains(x) implies queued.contains(x) by {
        let k = choose|k: int| 0 <= k < init.len() && init[k] == x;
        assert(queued[k] == x);
    }
    assert forall|i: int, j: int| 0 <= i < j < r.len() implies #[trigger] r[i] != #[trigger] r[j] by {
        if j < rest.len() {
            assert(r[i] == rest[i] && r[j] == rest[j]);
        } else {
            assert(r[i] == rest[i]);
            assert(rest.contains(rest[i]));
            let k = choose|k: int| 0 <= k < init.len() && init[k] == rest[i];
            assert(queued[k] == rest[i]);
            assert(queued[queued.len() - 1] == r[j]);
        }
    }
    assert forall|x: Seq<char>| #[trigger] r.contains(x) implies queued.contains(x) by {
        let k = choose|k: int| 0 <= k < r.len() && r[k] == x;
        if k < rest.len() {
            assert(rest[k] == x && rest.contains(x));
        } else {
            assert(queued[queued.len() - 1] == x);
        }
    }
}

/// The surface queue never exceeds its ceiling nor holds a session twice,
/// and once the listener is ready, queueing changes nothing.
pub proof fn law_the_surface_queue_is_bounded_and_closes(ready: bool, queued: Seq<Seq<char>>, browser_id: Seq<char>)
    requires
        pending_wf(queued),
    ensures
        pending_wf(queue_spec(ready, queued, browser_id)),
        ready ==> queue_spec(ready, queued, browser_id) == queued,
{
    let nq = queue_spec(ready, queued, browser_id);
    if !ready && !queued.contains(browser_id) {
        assert forall|i: int, j: int| 0 <= i < j < nq.len() implies #[trigger] nq[i] != #[trigger] nq[j] by {
            if queued.len() >= MAX_PENDING_SURFACE_OPENS {
                if j == nq.len() - 1 {
                    assert(nq[i] == queued[i + 1]);
                } else {
                    assert(nq[i] == queued[i + 1] && nq[j] == queued[j + 1]);
                }
            } else if j < queued.len() {
                assert(nq[i] == queued[i] && nq[j] == queued[j]);
            } else {
                assert(nq[i] == queued[i]);
            }
        }
    }
}

/// Reading the pending surfaces does not consume them: a second read
/// against the same sessions hands out the same ones.
pub proof fn law_reading_pending_surfaces_consumes_nothing(queued: Seq<Seq<char>>, entries: Seq<(Seq<char>, u32, Option<Seq<char>>)>)
    ensures
        still_live(still_live(queued, entries), entries) == still_live(queued, entries),
    decreases queued.len(),
{
    if queued.len() > 0 {
        let init = queued.drop_last();
        law_reading_pending_surfaces_consumes_nothing(init, entries);
        let first = still_live(init, entries);
        if index_of_id(entries, queued.last(), 0) < entries.len() {
            let once = first + seq![queued.last()];
            assert(once.drop_last() =~= first);
            assert(still_live(once, entries) =~= still_live(first, entries) + seq![queued.last()]);
        } else {
            assert(still_live(queued, entries) =~= first);
        }
    }
}

/// An acknowledged surface is never handed out again.
pub proof fn law_an_acknowledged_surface_is_not_handed_out_again(
    queued: Seq<Seq<char>>,
    browser_id: Seq<char>,
    entries: Seq<(Seq<char>, u32, Option<Seq<char>>)>,
)
    requires
        pending_wf(queued),
    ensures
        !still_live(without(queued, browser_id), entries).contains(browser_id),
{
    lemma_without_wf(queued, browser_id);
    let w = without(queued, browser_id);
    lemma_still_live_wf(w, entries);
}

} // verus!
