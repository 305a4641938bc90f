//! The agent roster a remote client sees: the desktop's own order first,
//! then every other agent by name.
use vstd::prelude::*;

use crate::text::{lemma_lex_facts, lex_lt, str_eq, str_lt, strings_view};

verus! {

/// One agent as a remote client lists it.
#[derive(Debug, Clone, PartialEq, Eq)]
pub struct RemoteAgentSummary {
    pub session_id: String,
    pub session_name: String,
    pub agent_class: String,
    pub provider: String,
    pub workspace: String,
    pub status: String,
    pub latest_text: Option<String>,
}

/// The sort key of an agent outside the desktop order: its name, then its id.
pub open spec fn roster_key(s: RemoteAgentSummary) -> (Seq<char>, Seq<char>) {
    (s.session_name@, s.session_id@)
}

/// Name first, then id, each in character order.
pub open spec fn key_lt(a: (Seq<char>, Seq<char>), b: (Seq<char>, Seq<char>)) -> bool {
    lex_lt(a.0, b.0) || (a.0 == b.0 && lex_lt(a.1, b.1))
}

pub open spec fn ids_distinct(s: Seq<RemoteAgentSummary>) -> bool {
    forall|i: int, j: int| 0 <= i < j < s.len() ==> #[trigger] s[i].session_id@ != #[trigger] s[j].session_id@
}

pub open spec fn has_id(s: Seq<RemoteAgentSummary>, id: Seq<char>) -> bool {
    exists|k: int| 0 <= k < s.len() && #[trigger] s[k].session_id@ == id
}

pub open spec fn with_id(s: Seq<RemoteAgentSummary>, id: Seq<char>) -> RemoteAgentSummary {
    s[choose|k: int| 0 <= k < s.len() && #[trigger] s[k].session_id@ == id]
}

/// The agents named by the desktop order, in that order, each once; ids
/// with no agent are skipped.
pub open spec fn in_desktop_order(s: Seq<RemoteAgentSummary>, order: Seq<Seq<char>>) -> Seq<RemoteAgentSummary>
    decreases order.len(),
{
    if order.len() == 0 {
        Seq::empty()
    } else {
        let id = order.last();
        in_desktop_order(s, order.drop_last()) + (if !order.drop_last().contains(id) && has_id(s, id) {
            seq![with_id(s, id)]
        } else {
            Seq::empty()
        })
    }
}

/// Strictly increasing keys.
pub open spec fn sorted_by_key(v: Seq<RemoteAgentSummary>) -> bool {
    forall|i: int, j: int| 0 <= i < j < v.len() ==> key_lt(#[trigger] roster_key(v[i]), #[trigger] roster_key(v[j]))
}

proof fn lemma_key_facts(a: (Seq<char>, Seq<char>), b: (Seq<char>, Seq<char>), c: (Seq<char>, Seq<char>))
    ensures
        !key_lt(a, a),
        a == b || key_lt(a, b) || key_lt(b, a),
        key_lt(a, b) && key_lt(b, c) ==> key_lt(a, c),
        key_lt(a, b) ==> !key_lt(b, a),
{
    lemma_lex_facts(a.0, b.0, c.0);
    lemma_lex_facts(a.1, b.1, c.1);
    if a.0 == b.0 && a.1 == b.1 {
        assert(a == b);
    }
}

fn copy_summary(s: &RemoteAgentSummary) -> (r: RemoteAgentSummary)
    ensures
        r == *s,
{
    RemoteAgentSummary {
        session_id: s.session_id.clone(),
        session_name: s.session_name.clone(),
        agent_class: s.agent_class.clone(),
        provider: s.provider.clone(),
        workspace: s.workspace.clone(),
        status: s.status.clone(),
        latest_text: match &s.latest_text {
            Some(t) => Some(t.clone()),
            None => None,
        },
    }
}

fn key_less(a: &RemoteAgentSummary, b: &RemoteAgentSummary) -> (r: bool)
    ensures
        r == key_lt(roster_key(*a), roster_key(*b)),
{
    str_lt(a.session_name.as_str(), b.session_name.as_str())
        || (str_eq(a.session_name.as_str(), b.session_name.as_str()) && str_lt(a.session_id.as_str(), b.session_id.as_str()))
}

proof fn lemma_in_desktop_order_members(s: Seq<RemoteAgentSummary>, order: Seq<Seq<char>>)
    requires
        ids_distinct(s),
    ensures
        forall|x: RemoteAgentSummary| #[trigger] in_desktop_order(s, order).contains(x)
            <==> (s.contains(x) && order.contains(x.session_id@)),
    decreases order.len(),
{
    if order.len() > 0 {
        let init = order.drop_last();
        let id = order.last();
        lemma_in_desktop_order_members(s, init);
        let prev = in_desktop_order(s, init);
        let cur = in_desktop_order(s, order);
        let added = !init.contains(id) && has_id(s, id);
        assert(cur == prev + (if added { seq![with_id(s, id)] } else { Seq::empty() }));
        assert forall|x: RemoteAgentSummary| #[trigger] cur.contains(x) <==> (s.contains(x) && order.contains(x.session_id@)) by {
            assert(order == init.push(id));
            if cur.contains(x) {
                let k = choose|k: int| 0 <= k < cur.len() && #[trigger] cur[k] == x;
                if k < prev.len() {
                    assert(prev[k] == x && prev.contains(x));
                    let q = choose|q: int| 0 <= q < init.len() && #[trigger] init[q] == x.session_id@;
                    assert(order[q] == x.session_id@);
                } else {
                    let w = choose|w: int| 0 <= w < s.len() && #[trigger] s[w].session_id@ == id;
                    assert(s[w] == x);
                    assert(order[order.len() - 1] == x.session_id@);
                }
            }
            if s.contains(x) && order.contains(x.session_id@) {
                let q = choose|q: int| 0 <= q < order.len() && #[trigger] order[q] == x.session_id@;
                if q < init.len() {
                    assert(init[q] == x.session_id@);
                    assert(prev.contains(x));
                    let k = choose|k: int| 0 <= k < prev.len() && #[trigger] prev[k] == x;
                    assert(cur[k] == x);
                } else {
                    assert(x.session_id@ == id);
                    let m = choose|m: int| 0 <= m < s.len() && #[trigger] s[m] == x;
                    assert(s[m].session_id@ == id);
                    assert(has_id(s, id));
                    if init.contains(id) {
                        let q2 = choose|q2: int| 0 <= q2 < init.len() && #[trigger] init[q2] == id;
                        assert(init[q2] == x.session_id@);
                        assert(prev.contains(x));
                        let k = choose|k: int| 0 <= k < prev.len() && #[trigger] prev[k] == x;
                        assert(cur[k] == x);
                    } else {
                        let w = choose|w: int| 0 <= w < s.len() && #[trigger] s[w].session_id@ == id;
                        if w != m {
                            if w < m {
                                assert(s[w].session_id@ != s[m].session_id@);
                            } else {
                                assert(s[m].session_id@ != s[w].session_id@);
                            }
                        }
                        assert(with_id(s, id) == x);
                        assert(cur[prev.len() as int] == x);
                    }
                }
            }
        }
    }
}

/// Inserts `e` into `rest`, keeping keys increasing, when no key in `rest`
/// equals its own.
fn insert_by_key(rest: &mut Vec<RemoteAgentSummary>, e: RemoteAgentSummary)
    requires
        sorted_by_key(old(rest)@),
        forall|k: int| 0 <= k < old(rest)@.len() ==> #[trigger] roster_key(old(rest)@[k]) != roster_key(e),
    ensures
        sorted_by_key(final(rest)@),
        forall|x: RemoteAgentSummary| #[trigger] final(rest)@.contains(x) <==> (old(rest)@.contains(x) || x == e),
{
    let ghost ov = rest@;
    let mut p: usize = 0;
    while p < rest.len() && !key_less(&e, &rest[p])
        invariant
            p <= rest@.len(),
            ov == rest@,
            forall|k: int| 0 <= k < p ==> !key_lt(roster_key(e), #[trigger] roster_key(ov[k])),
        decreases rest@.len() - p,
    {
        p = p + 1;
    }
    proof {
        assert forall|k: int| 0 <= k < p implies key_lt(#[trigger] roster_key(ov[k]), roster_key(e)) by {
            lemma_key_facts(roster_key(ov[k]), roster_key(e), roster_key(e));
        }
    }
    let ghost ek = roster_key(e);
    rest.insert(p, e);
    proof {
        let nv = rest@;
        assert(nv =~= ov.insert(p as int, e));
        assert forall|a: int, b: int| 0 <= a < b < nv.len() implies key_lt(#[trigger] roster_key(nv[a]), #[trigger] roster_key(nv[b])) by {
            if b < p {
                assert(nv[a] == ov[a] && nv[b] == ov[b]);
            } else if b == p {
                assert(nv[a] == ov[a]);
            } else if a < p {
                assert(nv[a] == ov[a] && nv[b] == ov[b - 1]);
                assert(key_lt(ek, roster_key(ov[p as int])));
                if b - 1 > p {
                    assert(key_lt(roster_key(ov[p as int]), roster_key(ov[b - 1])));
                    lemma_key_facts(ek, roster_key(ov[p as int]), roster_key(ov[b - 1]));
                }
                lemma_key_facts(roster_key(ov[a]), ek, roster_key(ov[b - 1]));
            } else if a == p {
                assert(nv[b] == ov[b - 1]);
                assert(key_lt(ek, roster_key(ov[p as int])));
                if b - 1 > p {
                    assert(key_lt(roster_key(ov[p as int]), roster_key(ov[b - 1])));
                    lemma_key_facts(ek, roster_key(ov[p as int]), roster_key(ov[b - 1]));
                }
            } else {
                assert(nv[a] == ov[a - 1] && nv[b] == ov[b - 1]);
            }
        }
        assert forall|x: RemoteAgentSummary| #[trigger] nv.contains(x) <==> (ov.contains(x) || x == e) by {
            if nv.contains(x) {
                let k = choose|k: int| 0 <= k < nv.len() && #[trigger] nv[k] == x;
                if k < p {
                    assert(ov[k] == x);
                } else if k > p {
                    assert(ov[k - 1] == x);
                }
            }
            if ov.contains(x) {
                let k = choose|k: int| 0 <= k < ov.len() && #[trigger] ov[k] == x;
                if k < p {
                    assert(nv[k] == x);
                } else {
                    assert(nv[k + 1] == x);
                }
            }
            if x == e {
                assert(nv[p as int] == x);
            }
        }
    }
}

/// The roster a remote client sees: the agents the desktop order names, in
/// that order and each once, then every other agent by name and id.
pub fn order_roster(summaries: &Vec<RemoteAgentSummary>, order: &[String]) -> (r: Vec<RemoteAgentSummary>)
    requires
        ids_distinct(summaries@),
    ensures
        in_desktop_order(summaries@, strings_view(order@)).len() <= r@.len(),
        r@.take(in_desktop_order(summaries@, strings_view(order@)).len() as int) == in_desktop_order(summaries@, strings_view(order@)),
        sorted_by_key(r@.skip(in_desktop_order(summaries@, strings_view(order@)).len() as int)),
        forall|x: RemoteAgentSummary| #[trigger] r@.skip(in_desktop_order(summaries@, strings_view(order@)).len() as int).contains(x)
            <==> (summaries@.contains(x) && !strings_view(order@).contains(x.session_id@)),
        forall|x: RemoteAgentSummary| #[trigger] r@.contains(x) <==> summaries@.contains(x),
{
    let ghost s = summaries@;
    let ghost ov = strings_view(order@);
    let n = summaries.len();
    let mut taken: Vec<bool> = Vec::new();
    let mut z: usize = 0;
    while z < n
        invariant
            z <= n,
            n == s.len(),
            taken@.len() == z,
            forall|m: int| 0 <= m < z ==> !(#[trigger] taken@[m]),
        decreases n - z,
    {
        taken.push(false);
        z = z + 1;
    }
    assert(ov.take(0) =~= Seq::<Seq<char>>::empty());
    let mut out: Vec<RemoteAgentSummary> = Vec::new();
    let mut i: usize = 0;
    while i < order.len()
        invariant
            i <= order@.len(),
            n == s.len(),
            s == summaries@,
            ov == strings_view(order@),
            ids_distinct(s),
            taken@.len() == n,
            forall|m: int| 0 <= m < n ==> #[trigger] taken@[m] == ov.take(i as int).contains(s[m].session_id@),
            out@ == in_desktop_order(s, ov.take(i as int)),
        decreases order@.len() - i,
    {
        let ghost id = ov[i as int];
        assert(order@[i as int]@ == id);
        assert(ov.take(i + 1).drop_last() =~= ov.take(i as int));
        assert(ov.take(i + 1).last() == id);
        let mut j: usize = 0;
        while j < n && (taken[j] || !str_eq(summaries[j].session_id.as_str(), order[i].as_str()))
            invariant
                j <= n,
                n == s.len(),
                s == summaries@,
                taken@.len() == n,
                i < order@.len(),
                order@[i as int]@ == id,
                forall|m: int| 0 <= m < j ==> (#[trigger] taken@[m] || s[m].session_id@ != id),
            decreases n - j,
        {
            j = j + 1;
        }
        let ghost before_taken = taken@;
        let ghost before_out = out@;
        if j < n {
            out.push(copy_summary(&summaries[j]));
            taken.set(j, true);
            proof {
                assert(s[j as int].session_id@ == id);
                assert(!ov.take(i as int).contains(id));
                assert(has_id(s, id));
                let k = choose|k: int| 0 <= k < s.len() && #[trigger] s[k].session_id@ == id;
                if k != j {
                    if k < j {
                        assert(s[k].session_id@ != s[j as int].session_id@);
                    } else {
                        assert(s[j as int].session_id@ != s[k].session_id@);
                    }
                }
                assert(with_id(s, id) == s[j as int]);
                assert(out@ =~= before_out + seq![with_id(s, id)]);
                assert forall|m: int| 0 <= m < n implies #[trigger] taken@[m] == ov.take(i + 1).contains(s[m].session_id@) by {
                    if m != j {
                        assert(taken@[m] == before_taken[m]);
                        if m < j {
                            assert(s[m].session_id@ != s[j as int].session_id@);
                        } else {
                            assert(s[j as int].session_id@ != s[m].session_id@);
                        }
                        if ov.take(i + 1).contains(s[m].session_id@) {
                            let q = choose|q: int| 0 <= q < i + 1 && #[trigger] ov.take(i + 1)[q] == s[m].session_id@;
                            assert(q < i);
                            assert(ov.take(i as int)[q] == s[m].session_id@);
                        }
                        if ov.take(i as int).contains(s[m].session_id@) {
                            let q = choose|q: int| 0 <= q < i && #[trigger] ov.take(i as int)[q] == s[m].session_id@;
                            assert(ov.take(i + 1)[q] == s[m].session_id@);
                        }
                    } else {
                        assert(ov.take(i + 1)[i as int] == id);
                    }
                }
            }
        } else {
            proof {
                if has_id(s, id) {
                    let k = choose|k: int| 0 <= k < s.len() && #[trigger] s[k].session_id@ == id;
                    assert(taken@[k]);
                    assert(ov.take(i as int).contains(id));
                }
                assert(out@ =~= before_out + Seq::<RemoteAgentSummary>::empty());
                assert forall|m: int| 0 <= m < n implies #[trigger] taken@[m] == ov.take(i + 1).contains(s[m].session_id@) by {
                    if ov.take(i + 1).contains(s[m].session_id@) {
                        let q = choose|q: int| 0 <= q < i + 1 && #[trigger] ov.take(i + 1)[q] == s[m].session_id@;
                        if q < i {
                            assert(ov.take(i as int)[q] == s[m].session_id@);
                        } else {
                            assert(s[m].session_id@ == id);
                        }
                    }
                    if ov.take(i as int).contains(s[m].session_id@) {
                        let q = choose|q: int| 0 <= q < i && #[trigger] ov.take(i as int)[q] == s[m].session_id@;
                        assert(ov.take(i + 1)[q] == s[m].session_id@);
                    }
                }
            }
        }
        i = i + 1;
    }
    assert(ov.take(order@.len() as int) =~= ov);
    let ghost k = out@.len();
    let mut rest: Vec<RemoteAgentSummary> = Vec::new();
    let mut j: usize = 0;
    while j < n
        invariant
            j <= n,
            n == s.len(),
            s == summaries@,
            ids_distinct(s),
            taken@.len() == n,
            forall|m: int| 0 <= m < n ==> #[trigger] taken@[m] == ov.contains(s[m].session_id@),
            sorted_by_key(rest@),
            forall|x: RemoteAgentSummary| #[trigger] rest@.contains(x) <==> (s.take(j as int).contains(x) && !ov.contains(x.session_id@)),
        decreases n - j,
    {
        proof {
            assert(s.take(j + 1) =~= s.take(j as int).push(s[j as int]));
        }
        let ghost before = rest@;
        if !taken[j] {
            proof {
                assert forall|q: int| 0 <= q < rest@.len() implies #[trigger] roster_key(rest@[q]) != roster_key(s[j as int]) by {
                    assert(rest@.contains(rest@[q]));
                    let m = choose|m: int| 0 <= m < j && #[trigger] s.take(j as int)[m] == rest@[q];
                    assert(s[m] == rest@[q]);
                    assert(s[m].session_id@ != s[j as int].session_id@);
                }
            }
            insert_by_key(&mut rest, copy_summary(&summaries[j]));
        }
        assert(forall|x: RemoteAgentSummary| #[trigger] rest@.contains(x) <==> (before.contains(x) || (!taken@[j as int] && x == s[j as int])));
        proof {
            assert forall|x: RemoteAgentSummary| #[trigger] rest@.contains(x) <==> (s.take(j + 1).contains(x) && !ov.contains(x.session_id@)) by {
                if s.take(j + 1).contains(x) {
                    let m = choose|m: int| 0 <= m < j + 1 && #[trigger] s.take(j + 1)[m] == x;
                    if m < j {
                        assert(s.take(j as int)[m] == x);
                    } else {
                        assert(x == s[j as int]);
                    }
                }
                if x == s[j as int] {
                    assert(s.take(j + 1)[j as int] == x);
                    assert(taken@[j as int] == ov.contains(x.session_id@));
                    if s.take(j as int).contains(x) {
                        let m = choose|m: int| 0 <= m < j && #[trigger] s.take(j as int)[m] == x;
                        assert(s[m] == x);
                        assert(s[m].session_id@ != s[j as int].session_id@);
                    }
                }
                if s.take(j as int).contains(x) {
                    let m = choose|m: int| 0 <= m < j && #[trigger] s.take(j as int)[m] == x;
                    assert(s.take(j + 1)[m] == x);
                }
            }
        }
        j = j + 1;
    }
    assert(s.take(n as int) =~= s);
    let ghost first = out@;
    let mut q: usize = 0;
    while q < rest.len()
        invariant
            q <= rest@.len(),
            out@ == first + rest@.take(q as int),
        decreases rest@.len() - q,
    {
        out.push(copy_summary(&rest[q]));
        assert(rest@.take(q + 1) =~= rest@.take(q as int).push(rest@[q as int]));
        q = q + 1;
    }
    assert(rest@.take(rest@.len() as int) =~= rest@);
    assert(out@.take(first.len() as int) =~= first);
    assert(out@.skip(first.len() as int) =~= rest@);
    proof {
        lemma_in_desktop_order_members(s, ov);
        assert forall|x: RemoteAgentSummary| #[trigger] out@.contains(x) <==> s.contains(x) by {
            if out@.contains(x) {
                let k = choose|k: int| 0 <= k < out@.len() && #[trigger] out@[k] == x;
                if k < first.len() {
                    assert(first[k] == x && first.contains(x));
                } else {
                    assert(rest@[k - first.len()] == x && rest@.contains(x));
                }
            }
            if s.contains(x) {
                if ov.contains(x.session_id@) {
                    assert(first.contains(x));
                    let k = choose|k: int| 0 <= k < first.len() && #[trigger] first[k] == x;
                    assert(out@[k] == x);
                } else {
                    assert(s.take(n as int).contains(x));
                    assert(rest@.contains(x));
                    let k = choose|k: int| 0 <= k < rest@.len() && #[trigger] rest@[k] == x;
                    assert(out@[first.len() + k] == x);
                }
            }
        }
    }
    out
}

} // verus!
