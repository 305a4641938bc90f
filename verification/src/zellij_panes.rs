//! Which agent session owns which Zellij pane, under which generation.
//!
//! Every start of a pane for a session takes a fresh generation; every later
//! request names the generation it was issued for, and a request for a
//! generation that no longer owns the session's pane is refused.
use vstd::prelude::*;

use crate::text::{starts_with, str_eq};
use crate::zellij::{ZellijPaneId, ZellijPaneInfo, ZellijPanePhase};

verus! {

/// The pane bound to one agent session.
#[derive(Debug, Clone)]
pub struct ZellijPaneBinding {
    pub session_id: String,
    pub pane_id: Option<ZellijPaneId>,
    pub generation: u64,
    pub phase: ZellijPanePhase,
}

/// What a binding says, as plain values.
pub struct PaneBindingView {
    pub session: Seq<char>,
    pub pane: Option<Seq<char>>,
    pub generation: u64,
    pub phase: ZellijPanePhase,
}

pub open spec fn pane_view(p: Option<ZellijPaneId>) -> Option<Seq<char>> {
    match p {
        Some(id) => Some(id.id_view()),
        None => None,
    }
}

impl ZellijPaneBinding {
    pub open spec fn view_of(&self) -> PaneBindingView {
        PaneBindingView {
            session: self.session_id@,
            pane: pane_view(self.pane_id),
            generation: self.generation,
            phase: self.phase,
        }
    }

    fn duplicate(&self) -> (r: Self)
        ensures
            r.view_of() == self.view_of(),
    {
        ZellijPaneBinding {
            session_id: self.session_id.clone(),
            pane_id: match &self.pane_id {
                Some(p) => Some(p.duplicate()),
                None => None,
            },
            generation: self.generation,
            phase: self.phase,
        }
    }
}

pub open spec fn views(v: Seq<ZellijPaneBinding>) -> Seq<PaneBindingView> {
    v.map_values(|b: ZellijPaneBinding| b.view_of())
}

/// No two bindings name the same session.
pub open spec fn sessions_unique(v: Seq<PaneBindingView>) -> bool {
    forall|i: int, j: int|
        0 <= i < v.len() && 0 <= j < v.len() && i != j ==> #[trigger] v[i].session != #[trigger] v[j].session
}

/// The binding of session `k`, if any.
pub open spec fn lookup(v: Seq<PaneBindingView>, k: Seq<char>) -> Option<PaneBindingView> {
    if exists|j: int| 0 <= j < v.len() && #[trigger] v[j].session == k {
        Some(v[choose|j: int| 0 <= j < v.len() && #[trigger] v[j].session == k])
    } else {
        None
    }
}

proof fn lemma_lookup_at(v: Seq<PaneBindingView>, i: int)
    requires
        sessions_unique(v),
        0 <= i < v.len(),
    ensures
        lookup(v, v[i].session) == Some(v[i]),
{
    let k = v[i].session;
    assert(exists|j: int| 0 <= j < v.len() && #[trigger] v[j].session == k);
    let c = choose|j: int| 0 <= j < v.len() && #[trigger] v[j].session == k;
    if c != i {
        assert(v[c].session != v[i].session);
    }
}

proof fn lemma_lookup_absent(v: Seq<PaneBindingView>, k: Seq<char>)
    requires
        forall|j: int| 0 <= j < v.len() ==> #[trigger] v[j].session != k,
    ensures
        lookup(v, k) is None,
{
}

/// Everything a registry holds: the last generation issued, and the bindings.
pub struct PaneRegistryView {
    pub next_generation: u64,
    pub bindings: Seq<PaneBindingView>,
}

pub open spec fn registry_wf(r: PaneRegistryView) -> bool {
    &&& sessions_unique(r.bindings)
    &&& forall|i: int| 0 <= i < r.bindings.len() ==> (#[trigger] r.bindings[i]).generation <= r.next_generation
}

/// What starting a pane for `session` does: refused while the session has a
/// binding, otherwise the next generation (saturating) is issued to a new
/// binding in the starting phase.
pub open spec fn begin_start_spec(r: PaneRegistryView, session: Seq<char>) -> (PaneRegistryView, Result<u64, ()>) {
    if lookup(r.bindings, session) is Some {
        (r, Err(()))
    } else {
        let g = if r.next_generation == u64::MAX { u64::MAX } else { (r.next_generation + 1) as u64 };
        (
            PaneRegistryView {
                next_generation: g,
                bindings: r.bindings.push(PaneBindingView { session, pane: None, generation: g, phase: ZellijPanePhase::Starting }),
            },
            Ok(g),
        )
    }
}

/// Why a request for a session's pane under a generation is refused, if it is.
pub enum PaneRefusal {
    NoPane,
    Stale,
    NotReady,
}

/// The pane a running binding of `session` under `generation` designates.
pub open spec fn live_pane_spec(r: PaneRegistryView, session: Seq<char>, generation: u64) -> Result<Seq<char>, PaneRefusal> {
    match lookup(r.bindings, session) {
        None => Err(PaneRefusal::NoPane),
        Some(b) => if b.generation != generation || b.phase != ZellijPanePhase::Running {
            Err(PaneRefusal::Stale)
        } else {
            match b.pane {
                Some(p) => Ok(p),
                None => Err(PaneRefusal::NotReady),
            }
        },
    }
}

pub open spec fn refusal_message(r: PaneRefusal) -> Seq<char> {
    match r {
        PaneRefusal::NoPane => "Agent has no Zellij pane"@,
        PaneRefusal::Stale => "Agent Zellij pane generation is stale"@,
        PaneRefusal::NotReady => "Agent Zellij pane is not ready"@,
    }
}

/// The bindings of the engine's panes.
pub struct ZellijPaneRegistry {
    next_generation: u64,
    bindings: Vec<ZellijPaneBinding>,
}

impl ZellijPaneRegistry {
    pub closed spec fn view(&self) -> PaneRegistryView {
        PaneRegistryView { next_generation: self.next_generation, bindings: views(self.bindings@) }
    }

    pub open spec fn wf(&self) -> bool {
        registry_wf(self.view())
    }

    pub fn new() -> (r: Self)
        ensures
            r.wf(),
            r.view().next_generation == 0,
            r.view().bindings.len() == 0,
    {
        let r = ZellijPaneRegistry { next_generation: 0, bindings: Vec::new() };
        assert(views(r.bindings@) =~= Seq::empty());
        r
    }

    fn find(&self, session_id: &str) -> (r: Option<usize>)
        requires
            self.wf(),
        ensures
            match r {
                Some(i) => i < self.bindings@.len() && self.view().bindings[i as int].session == session_id@
                    && lookup(self.view().bindings, session_id@) == Some(self.view().bindings[i as int]),
                None => lookup(self.view().bindings, session_id@) is None,
            },
    {
        let ghost v = self.view().bindings;
        let mut i: usize = 0;
        while i < self.bindings.len()
            invariant
                i <= self.bindings@.len(),
                v == views(self.bindings@),
                sessions_unique(v),
                forall|j: int| 0 <= j < i ==> #[trigger] v[j].session != session_id@,
            decreases self.bindings@.len() - i,
        {
            if str_eq(self.bindings[i].session_id.as_str(), session_id) {
                proof { lemma_lookup_at(v, i as int); }
                return Some(i);
            }
            i = i + 1;
        }
        proof { lemma_lookup_absent(v, session_id@); }
        None
    }

    /// The binding of a session, if it has one.
    pub fn binding(&self, session_id: &str) -> (r: Option<ZellijPaneBinding>)
        requires
            self.wf(),
        ensures
            match r {
                Some(b) => lookup(self.view().bindings, session_id@) == Some(b.view_of()),
                None => lookup(self.view().bindings, session_id@) is None,
            },
    {
        match self.find(session_id) {
            Some(i) => Some(self.bindings[i].duplicate()),
            None => None,
        }
    }

    /// Reserves a fresh generation for a new pane of `session_id`.
    pub fn begin_start(&mut self, session_id: &str) -> (r: Result<u64, String>)
        requires
            old(self).wf(),
        ensures
            final(self).wf(),
            (final(self).view(), match r { Ok(g) => Ok(g), Err(_) => Err(()) }) == begin_start_spec(old(self).view(), session_id@),
            r matches Err(e) ==> e@ == "Agent already has a Zellij pane transition in progress"@,
    {
        if self.find(session_id).is_some() {
            return Err("Agent already has a Zellij pane transition in progress".to_owned());
        }
        let ghost before = self.view();
        let generation = self.next_generation.saturating_add(1);
        self.next_generation = generation;
        let b = ZellijPaneBinding {
            session_id: session_id.to_owned(),
            pane_id: None,
            generation,
            phase: ZellijPanePhase::Starting,
        };
        self.bindings.push(b);
        proof {
            let nb = views(self.bindings@);
            assert(nb =~= before.bindings.push(b.view_of()));
            assert forall|i: int, j: int| 0 <= i < nb.len() && 0 <= j < nb.len() && i != j implies
                #[trigger] nb[i].session != #[trigger] nb[j].session by {
                if i == nb.len() - 1 {
                    assert(before.bindings[j].session != session_id@);
                } else if j == nb.len() - 1 {
                    assert(before.bindings[i].session != session_id@);
                }
            }
        }
        Ok(generation)
    }

    /// Records the pane that a start produced, unless the start was rolled back
    /// or superseded meanwhile.
    pub fn complete_start(&mut self, session_id: &str, generation: u64, pane_id: ZellijPaneId) -> (r: Result<ZellijPaneBinding, String>)
        requires
            old(self).wf(),
        ensures
            final(self).wf(),
            match lookup(old(self).view().bindings, session_id@) {
                None => r matches Err(e) && e@ == "Zellij pane start lost its agent binding"@ && final(self).view() == old(self).view(),
                Some(b) => if b.generation != generation || b.phase != ZellijPanePhase::Starting {
                    r matches Err(e) && e@ == "Zellij pane start was superseded"@ && final(self).view() == old(self).view()
                } else {
                    r matches Ok(nb) && nb.view_of() == (PaneBindingView {
                        session: b.session,
                        pane: Some(pane_id.id_view()),
                        generation,
                        phase: ZellijPanePhase::Running,
                    }) && final(self).view().next_generation == old(self).view().next_generation
                    && forall|k: Seq<char>| #[trigger] lookup(final(self).view().bindings, k)
                        == if k == session_id@ { Some(nb.view_of()) } else { lookup(old(self).view().bindings, k) }
                }
            },
    {
        let i = match self.find(session_id) {
            Some(i) => i,
            None => return Err("Zellij pane start lost its agent binding".to_owned()),
        };
        if self.bindings[i].generation != generation || self.bindings[i].phase != ZellijPanePhase::Starting {
            return Err("Zellij pane start was superseded".to_owned());
        }
        let ghost before = self.view().bindings;
        let old_b = self.bindings.remove(i);
        let nb = ZellijPaneBinding {
            session_id: old_b.session_id,
            pane_id: Some(pane_id),
            generation,
            phase: ZellijPanePhase::Running,
        };
        let out = nb.duplicate();
        self.bindings.insert(i, nb);
        proof { self.lemma_replaced(before, i as int); }
        Ok(out)
    }

    proof fn lemma_replaced(&self, before: Seq<PaneBindingView>, i: int)
        requires
            registry_wf(PaneRegistryView { next_generation: self.next_generation, bindings: before }),
            0 <= i < before.len(),
            self.bindings@.len() == before.len(),
            forall|j: int| 0 <= j < before.len() && j != i ==> #[trigger] views(self.bindings@)[j] == before[j],
            views(self.bindings@)[i].session == before[i].session,
            views(self.bindings@)[i].generation == before[i].generation,
        ensures
            self.wf(),
            forall|k: Seq<char>| #[trigger] lookup(views(self.bindings@), k)
                == if k == before[i].session { Some(views(self.bindings@)[i]) } else { lookup(before, k) },
    {
        let nv = views(self.bindings@);
        assert forall|a: int, b: int| 0 <= a < nv.len() && 0 <= b < nv.len() && a != b implies
            #[trigger] nv[a].session != #[trigger] nv[b].session by {
            assert(nv[a].session == before[a].session);
            assert(nv[b].session == before[b].session);
        }
        assert forall|j: int| 0 <= j < nv.len() implies (#[trigger] nv[j]).generation <= self.next_generation by {
            assert(nv[j].generation == before[j].generation);
        }
        assert forall|k: Seq<char>| #[trigger] lookup(nv, k)
            == if k == before[i].session { Some(nv[i]) } else { lookup(before, k) } by {
            if k == before[i].session {
                lemma_lookup_at(nv, i);
            } else if exists|j: int| 0 <= j < before.len() && #[trigger] before[j].session == k {
                let j = choose|j: int| 0 <= j < before.len() && #[trigger] before[j].session == k;
                lemma_lookup_at(before, j);
                assert(nv[j] == before[j]);
                lemma_lookup_at(nv, j);
            } else {
                assert forall|j: int| 0 <= j < nv.len() implies #[trigger] nv[j].session != k by {
                    assert(nv[j].session == before[j].session);
                }
                lemma_lookup_absent(nv, k);
            }
        }
    }

    /// Drops the binding of `session_id` if it still carries `generation`, and
    /// hands it back; a binding of a later generation stays.
    pub fn release(&mut self, session_id: &str, generation: u64) -> (r: Option<ZellijPaneBinding>)
        requires
            old(self).wf(),
        ensures
            final(self).wf(),
            final(self).view().next_generation == old(self).view().next_generation,
            match lookup(old(self).view().bindings, session_id@) {
                Some(b) => if b.generation == generation {
                    r matches Some(x) && x.view_of() == b
                    && forall|k: Seq<char>| #[trigger] lookup(final(self).view().bindings, k)
                        == if k == session_id@ { None } else { lookup(old(self).view().bindings, k) }
                } else {
                    r is None && final(self).view() == old(self).view()
                },
                None => r is None && final(self).view() == old(self).view(),
            },
    {
        let i = match self.find(session_id) {
            Some(i) => i,
            None => return None,
        };
        if self.bindings[i].generation != generation {
            return None;
        }
        let ghost before = self.view().bindings;
        let b = self.bindings.remove(i);
        proof {
            let nv = views(self.bindings@);
            assert(nv =~= before.remove(i as int));
            assert forall|a: int, c: int| 0 <= a < nv.len() && 0 <= c < nv.len() && a != c implies
                #[trigger] nv[a].session != #[trigger] nv[c].session by {
                let a0 = if a < i { a } else { a + 1 };
                let c0 = if c < i { c } else { c + 1 };
                assert(nv[a] == before[a0]);
                assert(nv[c] == before[c0]);
            }
            assert forall|j: int| 0 <= j < nv.len() implies (#[trigger] nv[j]).generation <= self.next_generation by {
                let j0 = if j < i { j } else { j + 1 };
                assert(nv[j] == before[j0]);
            }
            assert forall|k: Seq<char>| #[trigger] lookup(nv, k)
                == if k == session_id@ { None } else { lookup(before, k) } by {
                if k == session_id@ {
                    assert forall|j: int| 0 <= j < nv.len() implies #[trigger] nv[j].session != k by {
                        let j0 = if j < i { j } else { j + 1 };
                        assert(nv[j] == before[j0]);
                    }
                    lemma_lookup_absent(nv, k);
                } else if exists|j: int| 0 <= j < before.len() && #[trigger] before[j].session == k {
                    let j = choose|j: int| 0 <= j < before.len() && #[trigger] before[j].session == k;
                    lemma_lookup_at(before, j);
                    let j1 = if j < i { j } else { j - 1 };
                    assert(nv[j1] == before[j]);
                    lemma_lookup_at(nv, j1);
                } else {
                    assert forall|j: int| 0 <= j < nv.len() implies #[trigger] nv[j].session != k by {
                        let j0 = if j < i { j } else { j + 1 };
                        assert(nv[j] == before[j0]);
                    }
                    lemma_lookup_absent(nv, k);
                }
            }
        }
        Some(b)
    }

    /// The pane a running binding of `session_id` under `generation` designates.
    pub fn live_pane(&self, session_id: &str, generation: u64) -> (r: Result<ZellijPaneId, String>)
        requires
            self.wf(),
        ensures
            match live_pane_spec(self.view(), session_id@, generation) {
                Ok(p) => r matches Ok(x) && x.id_view() == p,
                Err(why) => r matches Err(e) && e@ == refusal_message(why),
            },
    {
        let i = match self.find(session_id) {
            Some(i) => i,
            None => return Err("Agent has no Zellij pane".to_owned()),
        };
        let b = &self.bindings[i];
        if b.generation != generation || b.phase != ZellijPanePhase::Running {
            return Err("Agent Zellij pane generation is stale".to_owned());
        }
        match &b.pane_id {
            Some(p) => Ok(p.duplicate()),
            None => Err("Agent Zellij pane is not ready".to_owned()),
        }
    }

    /// Marks a running binding as closing and names its pane. A binding that is
    /// neither running nor exited, or of another generation, is refused; one
    /// without a pane is marked closing all the same.
    pub fn begin_close(&mut self, session_id: &str, generation: u64) -> (r: Result<ZellijPaneId, String>)
        requires
            old(self).wf(),
        ensures
            final(self).wf(),
            final(self).view().next_generation == old(self).view().next_generation,
            match lookup(old(self).view().bindings, session_id@) {
                None => r matches Err(e) && e@ == "Agent has no Zellij pane"@ && final(self).view() == old(self).view(),
                Some(b) => if b.generation != generation
                    || !(b.phase == ZellijPanePhase::Running || b.phase == ZellijPanePhase::Exited) {
                    r matches Err(e) && e@ == "Agent Zellij pane generation is stale"@ && final(self).view() == old(self).view()
                } else {
                    (match b.pane {
                        Some(p) => r matches Ok(x) && x.id_view() == p,
                        None => r matches Err(e) && e@ == "Agent Zellij pane is not ready"@,
                    })
                    && forall|k: Seq<char>| #[trigger] lookup(final(self).view().bindings, k)
                        == if k == session_id@ {
                            Some(PaneBindingView { phase: ZellijPanePhase::Closing, ..b })
                        } else {
                            lookup(old(self).view().bindings, k)
                        }
                }
            },
    {
        let i = match self.find(session_id) {
            Some(i) => i,
            None => return Err("Agent has no Zellij pane".to_owned()),
        };
        let phase = self.bindings[i].phase;
        if self.bindings[i].generation != generation
            || !(phase == ZellijPanePhase::Running || phase == ZellijPanePhase::Exited) {
            return Err("Agent Zellij pane generation is stale".to_owned());
        }
        let ghost before = self.view().bindings;
        let mut b = self.bindings.remove(i);
        b.phase = ZellijPanePhase::Closing;
        let pane = match &b.pane_id {
            Some(p) => Ok(p.duplicate()),
            None => Err("Agent Zellij pane is not ready".to_owned()),
        };
        self.bindings.insert(i, b);
        proof { self.lemma_replaced(before, i as int); }
        pane
    }

    /// A running binding of `generation` whose pane output ended is marked exited.
    pub fn mark_exited(&mut self, session_id: &str, generation: u64)
        requires
            old(self).wf(),
        ensures
            final(self).wf(),
            final(self).view().next_generation == old(self).view().next_generation,
            match lookup(old(self).view().bindings, session_id@) {
                Some(b) => if b.generation == generation && b.phase == ZellijPanePhase::Running {
                    forall|k: Seq<char>| #[trigger] lookup(final(self).view().bindings, k)
                        == if k == session_id@ {
                            Some(PaneBindingView { phase: ZellijPanePhase::Exited, ..b })
                        } else {
                            lookup(old(self).view().bindings, k)
                        }
                } else {
                    final(self).view() == old(self).view()
                },
                None => final(self).view() == old(self).view(),
            },
    {
        let i = match self.find(session_id) {
            Some(i) => i,
            None => return,
        };
        if self.bindings[i].generation != generation || self.bindings[i].phase != ZellijPanePhase::Running {
            return;
        }
        let ghost before = self.view().bindings;
        let mut b = self.bindings.remove(i);
        b.phase = ZellijPanePhase::Exited;
        self.bindings.insert(i, b);
        proof { self.lemma_replaced(before, i as int); }
    }

    /// The panes some binding holds.
    pub fn registered_panes(&self) -> (r: Vec<ZellijPaneId>)
        requires
            self.wf(),
        ensures
            forall|p: Seq<char>| #![trigger lists_pane(r@, p)] #![trigger binds_pane(self.view().bindings, p)]
                lists_pane(r@, p) == binds_pane(self.view().bindings, p),
    {
        let ghost v = self.view().bindings;
        let mut out: Vec<ZellijPaneId> = Vec::new();
        let mut i: usize = 0;
        while i < self.bindings.len()
            invariant
                i <= self.bindings@.len(),
                v == views(self.bindings@),
                forall|p: Seq<char>| #![trigger lists_pane(out@, p)] #![trigger binds_pane(v.take(i as int), p)]
                    lists_pane(out@, p) == binds_pane(v.take(i as int), p),
            decreases self.bindings@.len() - i,
        {
            let ghost before = out@;
            match &self.bindings[i].pane_id {
                Some(p) => {
                    out.push(p.duplicate());
                },
                None => {},
            }
            proof {
                let t = v.take(i + 1);
                assert forall|p: Seq<char>| #![trigger lists_pane(out@, p)] #![trigger binds_pane(t, p)]
                    lists_pane(out@, p) == binds_pane(t, p) by {
                    if binds_pane(t, p) {
                        let j = choose|j: int| 0 <= j < t.len() && (#[trigger] t[j]).pane == Some(p);
                        if j < i {
                            assert(v.take(i as int)[j] == t[j]);
                            assert(binds_pane(v.take(i as int), p));
                            let a = choose|a: int| 0 <= a < before.len() && (#[trigger] before[a]).id_view() == p;
                            assert(out@[a] == before[a]);
                        } else {
                            assert(out@[out@.len() - 1].id_view() == p);
                        }
                    }
                    if lists_pane(out@, p) {
                        let a = choose|a: int| 0 <= a < out@.len() && (#[trigger] out@[a]).id_view() == p;
                        if a < before.len() {
                            assert(before[a] == out@[a]);
                            assert(lists_pane(before, p));
                            let j = choose|j: int| 0 <= j < i && (#[trigger] v.take(i as int)[j]).pane == Some(p);
                            assert(t[j] == v.take(i as int)[j]);
                        } else {
                            assert(t[i as int].pane == Some(p));
                        }
                    }
                }
            }
            i = i + 1;
        }
        assert(v.take(v.len() as int) =~= v);
        out
    }
}

/// Some identity in `ids` is `p`.
pub open spec fn lists_pane(ids: Seq<ZellijPaneId>, p: Seq<char>) -> bool {
    exists|a: int| 0 <= a < ids.len() && (#[trigger] ids[a]).id_view() == p
}

/// Some binding holds pane `p`.
pub open spec fn binds_pane(v: Seq<PaneBindingView>, p: Seq<char>) -> bool {
    exists|j: int| 0 <= j < v.len() && (#[trigger] v[j]).pane == Some(p)
}

/// The title Wardian gives an agent's pane.
pub open spec fn managed_title(session: Seq<char>) -> Seq<char> {
    "wardian:"@ + session
}

/// Pane `x` is a managed terminal pane (titled `wardian:…`) whose identity is `p`
/// and which no binding holds.
pub open spec fn stale_managed(x: ZellijPaneInfo, v: Seq<PaneBindingView>, p: Seq<char>) -> bool {
    &&& starts_with(x.title@, "wardian:"@)
    &&& !x.is_plugin
    &&& p == "terminal_"@ + crate::text::decimal_chars(x.id as nat)
    &&& !binds_pane(v, p)
}

pub open spec fn any_stale_managed(panes: Seq<ZellijPaneInfo>, v: Seq<PaneBindingView>, p: Seq<char>) -> bool {
    exists|k: int| 0 <= k < panes.len() && stale_managed(#[trigger] panes[k], v, p)
}

/// The managed terminal panes that no binding holds: left over from an earlier
/// run, to be closed at startup.
pub fn unregistered_managed_panes(registry: &ZellijPaneRegistry, panes: &[ZellijPaneInfo]) -> (r: Vec<ZellijPaneId>)
    requires
        registry.wf(),
    ensures
        forall|p: Seq<char>| #![trigger lists_pane(r@, p)] #![trigger any_stale_managed(panes@, registry.view().bindings, p)]
            lists_pane(r@, p) == any_stale_managed(panes@, registry.view().bindings, p),
{
    let ghost v = registry.view().bindings;
    let registered = registry.registered_panes();
    let prefix = crate::text::chars_of("wardian:");
    let mut out: Vec<ZellijPaneId> = Vec::new();
    let mut i: usize = 0;
    while i < panes.len()
        invariant
            i <= panes@.len(),
            v == registry.view().bindings,
            prefix@ == "wardian:"@,
            forall|p: Seq<char>| #![trigger lists_pane(registered@, p)] #![trigger binds_pane(v, p)]
                lists_pane(registered@, p) == binds_pane(v, p),
            forall|p: Seq<char>| #![trigger lists_pane(out@, p)] #![trigger any_stale_managed(panes@.take(i as int), v, p)]
                lists_pane(out@, p) == any_stale_managed(panes@.take(i as int), v, p),
        decreases panes@.len() - i,
    {
        let ghost before = out@;
        let pane = &panes[i];
        let title = crate::text::chars_of(pane.title.as_str());
        let mut pushed = false;
        if crate::text::starts_with_exec(title.as_slice(), prefix.as_slice()) {
            match pane.pane_id() {
                Some(id) => {
                    let mut known = false;
                    let mut a: usize = 0;
                    while a < registered.len()
                        invariant
                            a <= registered@.len(),
                            known == exists|b: int| 0 <= b < a && (#[trigger] registered@[b]).id_view() == id.id_view(),
                        decreases registered@.len() - a,
                    {
                        if crate::text::str_eq(registered[a].as_str(), id.as_str()) {
                            known = true;
                        }
                        a = a + 1;
                    }
                    assert(known == lists_pane(registered@, id.id_view()));
                    if !known {
                        out.push(id);
                        pushed = true;
                    }
                },
                None => {},
            }
        }
        proof {
            let x = panes@[i as int];
            let t = panes@.take(i + 1);
            let t0 = panes@.take(i as int);
            assert(t[i as int] == x);
            assert forall|p: Seq<char>| #![trigger lists_pane(out@, p)] #![trigger any_stale_managed(t, v, p)]
                lists_pane(out@, p) == any_stale_managed(t, v, p) by {
                if lists_pane(out@, p) {
                    let a = choose|a: int| 0 <= a < out@.len() && (#[trigger] out@[a]).id_view() == p;
                    if a < before.len() {
                        assert(before[a] == out@[a]);
                        assert(lists_pane(before, p));
                        let k = choose|k: int| 0 <= k < t0.len() && stale_managed(#[trigger] t0[k], v, p);
                        assert(t[k] == t0[k]);
                    } else {
                        assert(stale_managed(t[i as int], v, p));
                    }
                }
                if any_stale_managed(t, v, p) {
                    let k = choose|k: int| 0 <= k < t.len() && stale_managed(#[trigger] t[k], v, p);
                    if k < i {
                        assert(t0[k] == t[k]);
                        assert(any_stale_managed(t0, v, p));
                        let a = choose|a: int| 0 <= a < before.len() && (#[trigger] before[a]).id_view() == p;
                        assert(out@[a] == before[a]);
                    } else {
                        assert(out@[out@.len() - 1].id_view() == p);
                    }
                }
            }
        }
        i = i + 1;
    }
    assert(panes@.take(panes@.len() as int) =~= panes@);
    out
}

/// The identity Zellij gives a listed terminal pane.
pub open spec fn listed_id(x: ZellijPaneInfo) -> Seq<char> {
    "terminal_"@ + crate::text::decimal_chars(x.id as nat)
}

/// The terminal panes titled for `session`, in listing order.
pub open spec fn session_pane_ids(panes: Seq<ZellijPaneInfo>, session: Seq<char>) -> Seq<Seq<char>>
    decreases panes.len(),
{
    if panes.len() == 0 {
        Seq::empty()
    } else {
        let prev = session_pane_ids(panes.drop_last(), session);
        let x = panes.last();
        if x.title@ == managed_title(session) && !x.is_plugin { prev.push(listed_id(x)) } else { prev }
    }
}

/// The panes left titled for an agent session, closed before it starts again.
pub fn session_panes(panes: &[ZellijPaneInfo], session_id: &str) -> (r: Vec<ZellijPaneId>)
    ensures
        r@.map_values(|p: ZellijPaneId| p.id_view()) == session_pane_ids(panes@, session_id@),
{
    let mut title: Vec<char> = Vec::new();
    crate::text::push_str_chars(&mut title, "wardian:");
    crate::text::push_str_chars(&mut title, session_id);
    let mut out: Vec<ZellijPaneId> = Vec::new();
    let mut i: usize = 0;
    while i < panes.len()
        invariant
            i <= panes@.len(),
            title@ == managed_title(session_id@),
            out@.map_values(|p: ZellijPaneId| p.id_view()) == session_pane_ids(panes@.take(i as int), session_id@),
        decreases panes@.len() - i,
    {
        let ghost before = out@;
        let t = crate::text::chars_of(panes[i].title.as_str());
        if crate::text::chars_eq(t.as_slice(), title.as_slice()) {
            match panes[i].pane_id() {
                Some(id) => out.push(id),
                None => {},
            }
        }
        proof {
            let tk = panes@.take(i + 1);
            assert(tk.drop_last() =~= panes@.take(i as int));
            assert(out@.map_values(|p: ZellijPaneId| p.id_view()) =~= session_pane_ids(tk, session_id@));
        }
        i = i + 1;
    }
    assert(panes@.take(panes@.len() as int) =~= panes@);
    out
}

/// Another terminal pane shown full screen, which must leave full screen
/// before `target` takes it.
pub open spec fn other_fullscreen(x: ZellijPaneInfo, target: Seq<char>) -> bool {
    !x.is_plugin && listed_id(x) != target && x.is_fullscreen
}

/// Whether `target` is listed as shown full screen.
pub open spec fn target_fullscreen(panes: Seq<ZellijPaneInfo>, target: Seq<char>) -> bool {
    exists|k: int| 0 <= k < panes.len() && {
        let x = #[trigger] panes[k];
        !x.is_plugin && listed_id(x) == target && x.is_fullscreen
    }
}

/// What bringing `target` to the front takes: the first other pane shown full
/// screen leaves it, if there is one; and `target` is toggled to full screen
/// unless it already is.
pub fn activation_plan(target: &ZellijPaneId, panes: &[ZellijPaneInfo]) -> (r: (Option<ZellijPaneId>, bool))
    ensures
        match r.0 {
            Some(p) => exists|k: int| 0 <= k < panes@.len() && other_fullscreen(#[trigger] panes@[k], target.id_view())
                && p.id_view() == listed_id(panes@[k])
                && forall|j: int| 0 <= j < k ==> !other_fullscreen(#[trigger] panes@[j], target.id_view()),
            None => forall|k: int| 0 <= k < panes@.len() ==> !other_fullscreen(#[trigger] panes@[k], target.id_view()),
        },
        r.1 == !target_fullscreen(panes@, target.id_view()),
{
    let mut first: Option<ZellijPaneId> = None;
    let mut target_full = false;
    let mut i: usize = 0;
    while i < panes.len()
        invariant
            i <= panes@.len(),
            match first {
                Some(p) => exists|k: int| 0 <= k < i && other_fullscreen(#[trigger] panes@[k], target.id_view())
                    && p.id_view() == listed_id(panes@[k])
                    && forall|j: int| 0 <= j < k ==> !other_fullscreen(#[trigger] panes@[j], target.id_view()),
                None => forall|k: int| 0 <= k < i ==> !other_fullscreen(#[trigger] panes@[k], target.id_view()),
            },
            target_full == exists|k: int| 0 <= k < i && {
                let x = #[trigger] panes@[k];
                !x.is_plugin && listed_id(x) == target.id_view() && x.is_fullscreen
            },
        decreases panes@.len() - i,
    {
        let pane = &panes[i];
        match pane.pane_id() {
            Some(id) => {
                let same = crate::text::str_eq(id.as_str(), target.as_str());
                if pane.is_fullscreen && !same && first.is_none() {
                    first = Some(id);
                } else if pane.is_fullscreen && same {
                    target_full = true;
                }
            },
            None => {},
        }
        i = i + 1;
    }
    (first, !target_full)
}

/// The arguments of a `write` action sending `bytes` to `pane`: each byte as a
/// decimal number.
pub fn write_action_args(pane: &ZellijPaneId, bytes: &[u8]) -> (r: Vec<String>)
    ensures
        r@.len() == bytes@.len() + 4,
        r@[0]@ == "action"@,
        r@[1]@ == "write"@,
        r@[2]@ == "--pane-id"@,
        r@[3]@ == pane.id_view(),
        forall|i: int| 0 <= i < bytes@.len() ==> (#[trigger] r@[i + 4])@ == crate::text::decimal_chars(bytes@[i] as nat),
{
    let mut out: Vec<String> = Vec::new();
    out.push("action".to_owned());
    out.push("write".to_owned());
    out.push("--pane-id".to_owned());
    out.push(pane.as_str().to_owned());
    let mut i: usize = 0;
    while i < bytes.len()
        invariant
            i <= bytes@.len(),
            out@.len() == i + 4,
            out@[0]@ == "action"@,
            out@[1]@ == "write"@,
            out@[2]@ == "--pane-id"@,
            out@[3]@ == pane.id_view(),
            forall|j: int| 0 <= j < i ==> (#[trigger] out@[j + 4])@ == crate::text::decimal_chars(bytes@[j] as nat),
        decreases bytes@.len() - i,
    {
        let mut d: Vec<char> = Vec::new();
        crate::text::push_decimal(&mut d, bytes[i] as u64);
        out.push(crate::text::into_string(d));
        i = i + 1;
    }
    out
}

/// A start never reuses a generation that a binding still carries, while
/// generations are left to issue.
pub proof fn law_start_issues_a_fresh_generation(r: PaneRegistryView, session: Seq<char>)
    requires
        registry_wf(r),
        r.next_generation < u64::MAX,
        lookup(r.bindings, session) is None,
    ensures
        begin_start_spec(r, session).1 matches Ok(g) && g > r.next_generation
            && forall|i: int| 0 <= i < r.bindings.len() ==> (#[trigger] r.bindings[i]).generation < g,
        registry_wf(begin_start_spec(r, session).0),
{
    let nb = begin_start_spec(r, session).0.bindings;
    assert forall|i: int, j: int| 0 <= i < nb.len() && 0 <= j < nb.len() && i != j implies
        #[trigger] nb[i].session != #[trigger] nb[j].session by {
        if i == nb.len() - 1 {
            assert(nb[j] == r.bindings[j]);
            assert(r.bindings[j].session != session);
        } else if j == nb.len() - 1 {
            assert(nb[i] == r.bindings[i]);
            assert(r.bindings[i].session != session);
        } else {
            assert(nb[i] == r.bindings[i]);
            assert(nb[j] == r.bindings[j]);
        }
    }
}

/// Once a generation's binding is released, the session can start again, and
/// the new pane's generation is above the released one.
pub proof fn law_release_lets_the_session_restart(
    r: PaneRegistryView,
    after: PaneRegistryView,
    session: Seq<char>,
    generation: u64,
)
    requires
        registry_wf(r),
        r.next_generation < u64::MAX,
        lookup(r.bindings, session) matches Some(b) && b.generation == generation,
        registry_wf(after),
        after.next_generation == r.next_generation,
        lookup(after.bindings, session) is None,
    ensures
        begin_start_spec(after, session).1 matches Ok(g) && g > generation,
{
    let c = choose|j: int| 0 <= j < r.bindings.len() && #[trigger] r.bindings[j].session == session;
    assert(r.bindings[c].generation <= r.next_generation);
}

/// A request under any generation other than the one the session's binding
/// carries is refused as stale, whatever the binding's phase.
pub proof fn law_other_generation_is_stale(r: PaneRegistryView, session: Seq<char>, generation: u64)
    requires
        lookup(r.bindings, session) matches Some(b) && b.generation != generation,
    ensures
        live_pane_spec(r, session, generation) == Err::<Seq<char>, PaneRefusal>(PaneRefusal::Stale),
{
}

/// The pane a transport may subscribe to: a binding that is not running is
/// refused, and so is a running one whose pane is not yet known.
pub fn transport_pane(binding: &ZellijPaneBinding) -> (r: Result<ZellijPaneId, String>)
    ensures
        binding.phase != ZellijPanePhase::Running ==> (r matches Err(e) && e@ == "Agent Zellij pane is not running"@),
        binding.phase == ZellijPanePhase::Running && binding.pane_id is None
            ==> (r matches Err(e) && e@ == "Agent Zellij pane is not ready"@),
        binding.phase == ZellijPanePhase::Running && binding.pane_id is Some
            ==> (r matches Ok(p) && p.id_view() == binding.pane_id->0.id_view()),
{
    if binding.phase != ZellijPanePhase::Running {
        return Err("Agent Zellij pane is not running".to_owned());
    }
    match &binding.pane_id {
        Some(p) => Ok(p.duplicate()),
        None => Err("Agent Zellij pane is not ready".to_owned()),
    }
}

/// Whether a line of a pane subscription is a render of the subscribed
/// pane: only `pane_update` events for that pane are rendered.
pub fn is_update_for(event: &str, pane_id: &str, expected: &ZellijPaneId) -> (r: bool)
    ensures
        r == (event@ == "pane_update"@ && pane_id@ == expected.id_view()),
{
    str_eq(event, "pane_update") && str_eq(pane_id, expected.as_str())
}

} // verus!
