//! Guessing what a workspace serves: ranking the ports worth probing and
//! reading port declarations out of config text.
use vstd::prelude::*;

use crate::text::{
    all_digits, ascii_lower_seq, chars_of, decimal_value, is_ascii_digit,
    lemma_decimal_value_prefix_grows,
};

verus! {

/// Ceiling on ports probed in one sweep.
pub const MAX_CANDIDATES: usize = 24;

/// Where a candidate port came from.
#[derive(Debug, Clone, Copy, PartialEq, Eq)]
pub enum PortSource {
    /// The workspace says it serves here.
    Declared,
    /// Nothing said so; this is a common choice.
    Conventional,
}

/// One port worth probing.
#[derive(Debug, Clone, Copy, PartialEq, Eq)]
pub struct PortCandidate {
    pub port: u16,
    pub source: PortSource,
}

/// Ports worth trying when the workspace declares nothing, most likely first.
pub open spec fn conventional_ports() -> Seq<u16> {
    seq![5173u16, 3000, 4200, 8080, 5174, 3001, 4321, 8000, 5000, 1420, 8888]
}

/// The conventional ports, most likely first: Vite, Next/CRA, Angular, generic,
/// Vite's second choice, a second Node server, Astro, Django, Flask, Tauri, Jupyter.
pub fn conventional_port_list() -> (r: Vec<u16>)
    ensures
        r@ == conventional_ports(),
{
    let r: Vec<u16> = vec![5173u16, 3000, 4200, 8080, 5174, 3001, 4321, 8000, 5000, 1420, 8888];
    assert(r@ =~= conventional_ports());
    r
}

/// Every candidate before deduplication: nonzero declarations, then the conventions.
pub open spec fn all_candidates(declared: Seq<u16>) -> Seq<PortCandidate>
    decreases declared.len(),
{
    if declared.len() == 0 {
        conventional_ports().map_values(|p: u16| PortCandidate { port: p, source: PortSource::Conventional })
    } else {
        let rest = all_candidates(declared.drop_first());
        if declared[0] == 0 {
            rest
        } else {
            seq![PortCandidate { port: declared[0], source: PortSource::Declared }] + rest
        }
    }
}

/// Keeps the first candidate for each port, in order.
pub open spec fn first_per_port(s: Seq<PortCandidate>) -> Seq<PortCandidate>
    decreases s.len(),
{
    if s.len() == 0 {
        s
    } else {
        let prev = first_per_port(s.drop_last());
        if exists|i: int| 0 <= i < s.len() - 1 && (#[trigger] s[i]).port == s.last().port {
            prev
        } else {
            prev.push(s.last())
        }
    }
}

/// The ranked probe list: declared ports first, each port once, at most `MAX_CANDIDATES`.
pub open spec fn rank_spec(declared: Seq<u16>) -> Seq<PortCandidate> {
    let all = first_per_port(all_candidates(declared));
    if all.len() > MAX_CANDIDATES { all.take(MAX_CANDIDATES as int) } else { all }
}

proof fn lemma_first_per_port_has(s: Seq<PortCandidate>, port: u16)
    ensures
        (exists|i: int| 0 <= i < s.len() && (#[trigger] s[i]).port == port)
            <==> (exists|j: int| 0 <= j < first_per_port(s).len() && (#[trigger] first_per_port(s)[j]).port == port),
    decreases s.len(),
{
    if s.len() > 0 {
        lemma_first_per_port_has(s.drop_last(), port);
        let prev = first_per_port(s.drop_last());
        if exists|i: int| 0 <= i < s.len() - 1 && (#[trigger] s[i]).port == s.last().port {
            if exists|i: int| 0 <= i < s.len() && (#[trigger] s[i]).port == port {
                let i = choose|i: int| 0 <= i < s.len() && (#[trigger] s[i]).port == port;
                if i == s.len() - 1 {
                    let k = choose|k: int| 0 <= k < s.len() - 1 && (#[trigger] s[k]).port == s.last().port;
                    assert(s.drop_last()[k].port == port);
                } else {
                    assert(s.drop_last()[i].port == port);
                }
            }
            if exists|j: int| 0 <= j < prev.len() && (#[trigger] prev[j]).port == port {
                let j = choose|j: int| 0 <= j < prev.len() && (#[trigger] prev[j]).port == port;
                assert(prev[j].port == port);
                let i = choose|i: int| 0 <= i < s.len() - 1 && (#[trigger] s.drop_last()[i]).port == port;
                assert(s[i].port == port);
            }
        } else {
            let next = prev.push(s.last());
            if exists|i: int| 0 <= i < s.len() && (#[trigger] s[i]).port == port {
                let i = choose|i: int| 0 <= i < s.len() && (#[trigger] s[i]).port == port;
                if i == s.len() - 1 {
                    assert(next[prev.len() as int].port == port);
                } else {
                    assert(s.drop_last()[i].port == port);
                    let j = choose|j: int| 0 <= j < prev.len() && (#[trigger] prev[j]).port == port;
                    assert(next[j].port == port);
                }
            }
            if exists|j: int| 0 <= j < next.len() && (#[trigger] next[j]).port == port {
                let j = choose|j: int| 0 <= j < next.len() && (#[trigger] next[j]).port == port;
                if j == prev.len() {
                    assert(s[s.len() - 1].port == port);
                } else {
                    assert(prev[j].port == port);
                    let i = choose|i: int| 0 <= i < s.len() - 1 && (#[trigger] s.drop_last()[i]).port == port;
                    assert(s[i].port == port);
                }
            }
        }
    }
}

/// No port zero, and every declared candidate before every conventional one.
pub open spec fn well_ordered(s: Seq<PortCandidate>) -> bool {
    &&& forall|i: int| 0 <= i < s.len() ==> (#[trigger] s[i]).port != 0
    &&& forall|i: int, j: int| 0 <= i < j < s.len() && (#[trigger] s[j]).source == PortSource::Declared
        ==> (#[trigger] s[i]).source == PortSource::Declared
}

pub open spec fn ports_distinct(s: Seq<PortCandidate>) -> bool {
    forall|i: int, j: int| 0 <= i < j < s.len() ==> (#[trigger] s[i]).port != (#[trigger] s[j]).port
}

proof fn lemma_all_candidates_well_ordered(declared: Seq<u16>)
    ensures
        well_ordered(all_candidates(declared)),
    decreases declared.len(),
{
    if declared.len() == 0 {
        let c = all_candidates(declared);
        assert forall|i: int| 0 <= i < c.len() implies (#[trigger] c[i]).port != 0 by {
            assert(c[i].port == conventional_ports()[i]);
        }
    } else {
        lemma_all_candidates_well_ordered(declared.drop_first());
        let rest = all_candidates(declared.drop_first());
        if declared[0] != 0 {
            let c = all_candidates(declared);
            let head = PortCandidate { port: declared[0], source: PortSource::Declared };
            assert(c == seq![head] + rest);
            assert forall|i: int| 0 <= i < c.len() implies (#[trigger] c[i]).port != 0 by {
                if i > 0 { assert(c[i] == rest[i - 1]); }
            }
            assert forall|i: int, j: int| 0 <= i < j < c.len() && (#[trigger] c[j]).source == PortSource::Declared
                implies (#[trigger] c[i]).source == PortSource::Declared by {
                if i > 0 {
                    assert(c[i] == rest[i - 1] && c[j] == rest[j - 1]);
                }
            }
        }
    }
}

proof fn lemma_first_per_port_laws(s: Seq<PortCandidate>)
    requires
        well_ordered(s),
    ensures
        well_ordered(first_per_port(s)),
        ports_distinct(first_per_port(s)),
        forall|x: PortCandidate| #[trigger] first_per_port(s).contains(x) ==> s.contains(x),
    decreases s.len(),
{
    if s.len() > 0 {
        let init = s.drop_last();
        assert(well_ordered(init)) by {
            assert forall|i: int| 0 <= i < init.len() implies (#[trigger] init[i]).port != 0 by {
                assert(init[i] == s[i]);
            }
            assert forall|i: int, j: int| 0 <= i < j < init.len() && (#[trigger] init[j]).source == PortSource::Declared
                implies (#[trigger] init[i]).source == PortSource::Declared by {
                assert(init[i] == s[i] && init[j] == s[j]);
            }
        }
        lemma_first_per_port_laws(init);
        let prev = first_per_port(init);
        let r = first_per_port(s);
        assert forall|x: PortCandidate| init.contains(x) implies s.contains(x) by {
            let k = choose|k: int| 0 <= k < init.len() && init[k] == x;
            assert(s[k] == x);
        }
        if !(exists|i: int| 0 <= i < s.len() - 1 && (#[trigger] s[i]).port == s.last().port) {
            let last = s.last();
            assert(r == prev.push(last));
            assert forall|i: int| 0 <= i < prev.len() implies (#[trigger] prev[i]).port != last.port
                && (last.source == PortSource::Declared ==> prev[i].source == PortSource::Declared) by {
                assert(prev.contains(prev[i]));
                let k = choose|k: int| 0 <= k < init.len() && init[k] == prev[i];
                assert(s[k] == prev[i]);
                assert(s[s.len() - 1] == last);
            }
            assert forall|i: int| 0 <= i < r.len() implies (#[trigger] r[i]).port != 0 by {
                if i < prev.len() { assert(r[i] == prev[i]); } else { assert(s[s.len() - 1] == r[i]); }
            }
            assert forall|i: int, j: int| 0 <= i < j < r.len() && (#[trigger] r[j]).source == PortSource::Declared
                implies (#[trigger] r[i]).source == PortSource::Declared by {
                assert(r[i] == prev[i]);
                if j < prev.len() { assert(r[j] == prev[j]); }
            }
            assert forall|i: int, j: int| 0 <= i < j < r.len() implies (#[trigger] r[i]).port != (#[trigger] r[j]).port by {
                assert(r[i] == prev[i]);
                if j < prev.len() { assert(r[j] == prev[j]); }
            }
            assert forall|x: PortCandidate| #[trigger] r.contains(x) implies s.contains(x) by {
                let k = choose|k: int| 0 <= k < r.len() && r[k] == x;
                if k < prev.len() {
                    assert(prev[k] == x && prev.contains(x));
                } else {
                    assert(s[s.len() - 1] == x);
                }
            }
        }
    }
}

/// The probe list never repeats a port, never holds port zero, holds at
/// most `MAX_CANDIDATES`, and lists every declared port before any
/// conventional one.
pub proof fn law_the_probe_list_is_bounded_and_declared_first(declared: Seq<u16>)
    ensures
        rank_spec(declared).len() <= MAX_CANDIDATES,
        ports_distinct(rank_spec(declared)),
        well_ordered(rank_spec(declared)),
{
    lemma_all_candidates_well_ordered(declared);
    lemma_first_per_port_laws(all_candidates(declared));
    let all = first_per_port(all_candidates(declared));
    let r = rank_spec(declared);
    if all.len() > MAX_CANDIDATES {
        assert forall|i: int| 0 <= i < r.len() implies (#[trigger] r[i]).port != 0 by {
            assert(r[i] == all[i]);
        }
        assert forall|i: int, j: int| 0 <= i < j < r.len() && (#[trigger] r[j]).source == PortSource::Declared
            implies (#[trigger] r[i]).source == PortSource::Declared by {
            assert(r[i] == all[i] && r[j] == all[j]);
        }
        assert forall|i: int, j: int| 0 <= i < j < r.len() implies (#[trigger] r[i]).port != (#[trigger] r[j]).port by {
            assert(r[i] == all[i] && r[j] == all[j]);
        }
    }
}

fn has_port(ranked: &Vec<PortCandidate>, port: u16) -> (r: bool)
    ensures
        r == exists|i: int| 0 <= i < ranked@.len() && (#[trigger] ranked@[i]).port == port,
{
    let mut i: usize = 0;
    while i < ranked.len()
        invariant
            i <= ranked@.len(),
            forall|j: int| 0 <= j < i ==> (#[trigger] ranked@[j]).port != port,
        decreases ranked@.len() - i,
    {
        if ranked[i].port == port {
            return true;
        }
        i = i + 1;
    }
    false
}

/// Ranks the ports to probe for a workspace, declared ones first.
pub fn rank_candidates(declared: &[u16]) -> (r: Vec<PortCandidate>)
    ensures
        r@ == rank_spec(declared@),
{
    let conventional = conventional_port_list();
    // Every candidate in order, so the deduplication below can walk it once.
    let mut all: Vec<PortCandidate> = Vec::new();
    let mut i: usize = 0;
    assert(all@ + all_candidates(declared@.skip(0)) =~= all_candidates(declared@)) by {
        assert(declared@.skip(0) =~= declared@);
    }
    while i < declared.len()
        invariant
            i <= declared@.len(),
            all@ + all_candidates(declared@.skip(i as int)) == all_candidates(declared@),
        decreases declared@.len() - i,
    {
        assert(declared@.skip(i as int).drop_first() =~= declared@.skip(i + 1));
        if declared[i] != 0 {
            let ghost before = all@;
            all.push(PortCandidate { port: declared[i], source: PortSource::Declared });
            assert(before + all_candidates(declared@.skip(i as int))
                =~= all@ + all_candidates(declared@.skip(i + 1)));
        }
        i = i + 1;
    }
    let mut k: usize = 0;
    while k < conventional.len()
        invariant
            k <= conventional@.len(),
            conventional@ == conventional_ports(),
            declared@.skip(declared@.len() as int).len() == 0,
            all@ + conventional_ports().skip(k as int).map_values(
                |p: u16| PortCandidate { port: p, source: PortSource::Conventional },
            ) == all_candidates(declared@),
        decreases conventional@.len() - k,
    {
        let ghost before = all@;
        all.push(PortCandidate { port: conventional[k], source: PortSource::Conventional });
        assert(before + conventional_ports().skip(k as int).map_values(
            |p: u16| PortCandidate { port: p, source: PortSource::Conventional },
        ) =~= all@ + conventional_ports().skip(k + 1).map_values(
            |p: u16| PortCandidate { port: p, source: PortSource::Conventional },
        ));
        k = k + 1;
    }
    assert(all@ =~= all_candidates(declared@)) by {
        assert(conventional_ports().skip(conventional@.len() as int).len() == 0);
    }
    let mut ranked: Vec<PortCandidate> = Vec::new();
    let mut j: usize = 0;
    while j < all.len()
        invariant
            j <= all@.len(),
            ranked@ == first_per_port(all@.take(j as int)),
        decreases all@.len() - j,
    {
        let c = all[j];
        assert(all@.take(j + 1).drop_last() =~= all@.take(j as int));
        proof {
            lemma_first_per_port_has(all@.take(j as int), c.port);
        }
        if !has_port(&ranked, c.port) {
            ranked.push(c);
            proof {
                if exists|q: int| 0 <= q < j && (#[trigger] all@.take(j + 1)[q]).port == c.port {
                    let q = choose|q: int| 0 <= q < j && (#[trigger] all@.take(j + 1)[q]).port == c.port;
                    assert(all@.take(j as int)[q].port == c.port);
                }
            }
        } else {
            proof {
                let q = choose|q: int| 0 <= q < j && (#[trigger] all@.take(j as int)[q]).port == c.port;
                assert(all@.take(j + 1)[q].port == c.port);
            }
        }
        j = j + 1;
    }
    assert(all@.take(all@.len() as int) =~= all@);
    if ranked.len() > MAX_CANDIDATES {
        ranked.truncate(MAX_CANDIDATES);
    }
    ranked
}

pub open spec fn is_port_separator(c: char) -> bool {
    c == ' ' || c == '\t' || c == ':' || c == '=' || c == '"' || c == '\''
}

/// The first index at or after `i` that is not a separator.
pub open spec fn skip_separators(s: Seq<char>, i: int) -> int
    decreases s.len() - i,
{
    if 0 <= i < s.len() && is_port_separator(s[i]) { skip_separators(s, i + 1) } else { i }
}

/// The first index at or after `i` that is not a decimal digit.
pub open spec fn digits_end(s: Seq<char>, i: int) -> int
    decreases s.len() - i,
{
    if 0 <= i < s.len() && is_ascii_digit(s[i]) { digits_end(s, i + 1) } else { i }
}

/// The port declared by the occurrence of "port" (any case) at `i`, if one is:
/// at least one separator, then a run of digits whose value is an unprivileged port.
pub open spec fn port_at(s: Seq<char>, i: int) -> Option<u16> {
    if 0 <= i && i + 4 <= s.len() && ascii_lower_seq(s.subrange(i, i + 4)) == "port"@ {
        let start = skip_separators(s, i + 4);
        let end = digits_end(s, start);
        if start == i + 4 || end == start {
            None
        } else {
            let v = decimal_value(s.subrange(start, end));
            if 1024 <= v <= 65535 { Some(v as u16) } else { None }
        }
    } else {
        None
    }
}

/// The distinct ports declared by the occurrences starting before `n`, in text order.
pub open spec fn ports_before(s: Seq<char>, n: int) -> Seq<u16>
    decreases n,
{
    if n <= 0 {
        Seq::empty()
    } else {
        let prev = ports_before(s, n - 1);
        match port_at(s, n - 1) {
            Some(p) => if prev.contains(p) { prev } else { prev.push(p) },
            None => prev,
        }
    }
}

pub open spec fn ports_in_spec(s: Seq<char>) -> Seq<u16> {
    ports_before(s, s.len() as int)
}

/// The port `p` is declared at some occurrence before `n` at or before
/// which `q` has not yet been declared.
pub open spec fn declared_before(s: Seq<char>, p: u16, q: u16, n: int) -> bool {
    exists|i: int| #![trigger port_at(s, i)] 0 <= i < n && port_at(s, i) == Some(p)
        && forall|j: int| #![trigger port_at(s, j)] 0 <= j <= i ==> port_at(s, j) != Some(q)
}

proof fn lemma_ports_before_laws(s: Seq<char>, n: int)
    ensures
        ports_before(s, n).no_duplicates(),
        forall|p: u16| #[trigger] ports_before(s, n).contains(p)
            <==> exists|i: int| #![trigger port_at(s, i)] 0 <= i < n && port_at(s, i) == Some(p),
        forall|k: int| 0 <= k < ports_before(s, n).len() ==> 1024 <= #[trigger] ports_before(s, n)[k],
        forall|a: int, b: int| 0 <= a < b < ports_before(s, n).len()
            ==> declared_before(s, #[trigger] ports_before(s, n)[a], #[trigger] ports_before(s, n)[b], n),
    decreases n,
{
    if n > 0 {
        lemma_ports_before_laws(s, n - 1);
        let prev = ports_before(s, n - 1);
        let cur = ports_before(s, n);
        assert forall|p: u16| #[trigger] cur.contains(p)
            <==> exists|i: int| #![trigger port_at(s, i)] 0 <= i < n && port_at(s, i) == Some(p) by {
            if cur.contains(p) {
                if prev.contains(p) {
                    let i = choose|i: int| #![trigger port_at(s, i)] 0 <= i < n - 1 && port_at(s, i) == Some(p);
                    assert(0 <= i < n && port_at(s, i) == Some(p));
                } else {
                    let k = choose|k: int| 0 <= k < cur.len() && cur[k] == p;
                    assert(port_at(s, n - 1) == Some(p));
                }
            }
            if exists|i: int| #![trigger port_at(s, i)] 0 <= i < n && port_at(s, i) == Some(p) {
                let i = choose|i: int| #![trigger port_at(s, i)] 0 <= i < n && port_at(s, i) == Some(p);
                if i < n - 1 {
                    assert(prev.contains(p));
                    if port_at(s, n - 1) matches Some(q) && !prev.contains(q) {
                        assert(cur[prev.index_of(p)] == p);
                    }
                } else {
                    if !prev.contains(p) {
                        assert(cur[cur.len() - 1] == p);
                    }
                }
            }
        }
        assert forall|k: int| 0 <= k < cur.len() implies 1024 <= #[trigger] cur[k] by {
            if k < prev.len() {
                assert(cur[k] == prev[k]);
            }
        }
        if port_at(s, n - 1) is Some && !prev.contains(port_at(s, n - 1)->0) {
            let q = port_at(s, n - 1)->0;
            assert forall|a: int, b: int| 0 <= a < b < cur.len() implies cur[a] != cur[b] by {
                if b < prev.len() {
                    assert(prev[a] != prev[b]);
                } else {
                    assert(prev.contains(prev[a]));
                }
            }
            assert forall|a: int, b: int| 0 <= a < b < cur.len()
                implies declared_before(s, #[trigger] cur[a], #[trigger] cur[b], n) by {
                if b < prev.len() {
                    assert(declared_before(s, prev[a], prev[b], n - 1));
                    let i = choose|i: int| #![trigger port_at(s, i)] 0 <= i < n - 1 && port_at(s, i) == Some(prev[a])
                        && forall|j: int| #![trigger port_at(s, j)] 0 <= j <= i ==> port_at(s, j) != Some(prev[b]);
                    assert(0 <= i < n && port_at(s, i) == Some(cur[a]));
                } else {
                    assert(prev.contains(prev[a]));
                    let i = choose|i: int| #![trigger port_at(s, i)] 0 <= i < n - 1 && port_at(s, i) == Some(prev[a]);
                    assert forall|j: int| #![trigger port_at(s, j)] 0 <= j <= i implies port_at(s, j) != Some(cur[b]) by {
                        if port_at(s, j) == Some(q) {
                            assert(prev.contains(q));
                        }
                    }
                    assert(0 <= i < n && port_at(s, i) == Some(cur[a]));
                }
            }
        } else {
            assert forall|a: int, b: int| 0 <= a < b < cur.len()
                implies declared_before(s, #[trigger] cur[a], #[trigger] cur[b], n) by {
                assert(declared_before(s, prev[a], prev[b], n - 1));
                let i = choose|i: int| #![trigger port_at(s, i)] 0 <= i < n - 1 && port_at(s, i) == Some(prev[a])
                    && forall|j: int| #![trigger port_at(s, j)] 0 <= j <= i ==> port_at(s, j) != Some(prev[b]);
                assert(0 <= i < n && port_at(s, i) == Some(cur[a]));
            }
        }
    }
}

/// The ports a text declares are distinct unprivileged ports, each one that
/// some occurrence of "port" declares, kept in the order of their first
/// declaration: a port declared twice is one candidate.
pub proof fn law_declared_ports_are_distinct_and_in_text_order(s: Seq<char>)
    ensures
        ports_in_spec(s).no_duplicates(),
        forall|p: u16| #[trigger] ports_in_spec(s).contains(p)
            <==> exists|i: int| #![trigger port_at(s, i)] 0 <= i < s.len() && port_at(s, i) == Some(p),
        forall|k: int| 0 <= k < ports_in_spec(s).len() ==> 1024 <= #[trigger] ports_in_spec(s)[k],
        forall|a: int, b: int| 0 <= a < b < ports_in_spec(s).len()
            ==> declared_before(s, #[trigger] ports_in_spec(s)[a], #[trigger] ports_in_spec(s)[b], s.len() as int),
{
    lemma_ports_before_laws(s, s.len() as int);
}

fn lower_is_port(s: &[char], i: usize) -> (r: bool)
    requires
        i + 4 <= s@.len(),
    ensures
        r == (ascii_lower_seq(s@.subrange(i as int, i + 4)) == "port"@),
{
    proof { reveal_strlit("port"); }
    let a = s[i];
    let b = s[i + 1];
    let c = s[i + 2];
    let d = s[i + 3];
    let r = (a == 'p' || a == 'P') && (b == 'o' || b == 'O') && (c == 'r' || c == 'R') && (d == 't' || d == 'T');
    let ghost l = ascii_lower_seq(s@.subrange(i as int, i + 4));
    assert(l.len() == 4);
    assert(l[0] == crate::text::ascii_lower_of(a));
    assert(l[1] == crate::text::ascii_lower_of(b));
    assert(l[2] == crate::text::ascii_lower_of(c));
    assert(l[3] == crate::text::ascii_lower_of(d));
    if r {
        assert(l =~= "port"@);
    } else {
        assert(l != "port"@) by {
            if l == "port"@ {
                assert(l[0] == 'p' && l[1] == 'o' && l[2] == 'r' && l[3] == 't');
            }
        }
    }
    r
}

fn contains_port(v: &Vec<u16>, p: u16) -> (r: bool)
    ensures
        r == v@.contains(p),
{
    let mut i: usize = 0;
    while i < v.len()
        invariant
            i <= v@.len(),
            forall|j: int| 0 <= j < i ==> v@[j] != p,
        decreases v@.len() - i,
    {
        if v[i] == p {
            return true;
        }
        i = i + 1;
    }
    false
}

proof fn lemma_digits_end_bounds(s: Seq<char>, i: int)
    requires
        0 <= i <= s.len(),
    ensures
        i <= digits_end(s, i) <= s.len(),
        all_digits(s.subrange(i, digits_end(s, i))),
    decreases s.len() - i,
{
    if i < s.len() && is_ascii_digit(s[i]) {
        lemma_digits_end_bounds(s, i + 1);
        assert forall|k: int| 0 <= k < digits_end(s, i) - i implies is_ascii_digit(#[trigger] s.subrange(i, digits_end(s, i))[k]) by {
            if k > 0 {
                assert(s.subrange(i, digits_end(s, i))[k] == s.subrange(i + 1, digits_end(s, i + 1))[k - 1]);
            }
        }
    }
}

proof fn lemma_skip_bounds(s: Seq<char>, i: int)
    requires
        0 <= i <= s.len(),
    ensures
        i <= skip_separators(s, i) <= s.len(),
    decreases s.len() - i,
{
    if i < s.len() && is_port_separator(s[i]) {
        lemma_skip_bounds(s, i + 1);
    }
}

/// The port declared at `i`, computed.
fn port_at_exec(s: &[char], i: usize) -> (r: Option<u16>)
    requires
        i < s@.len(),
    ensures
        r == port_at(s@, i as int),
{
    if s.len() - i < 4 || !lower_is_port(s, i) {
        return None;
    }
    let mut cursor = i + 4;
    while cursor < s.len() && (s[cursor] == ' ' || s[cursor] == '\t' || s[cursor] == ':'
        || s[cursor] == '=' || s[cursor] == '"' || s[cursor] == '\'')
        invariant
            i + 4 <= cursor <= s@.len(),
            skip_separators(s@, i + 4) == skip_separators(s@, cursor as int),
        decreases s@.len() - cursor,
    {
        cursor = cursor + 1;
    }
    if cursor == i + 4 {
        return None;
    }
    let start = cursor;
    // The value, capped once it can no longer be a port.
    let mut value: u32 = 0;
    let mut big = false;
    while cursor < s.len() && '0' <= s[cursor] && s[cursor] <= '9'
        invariant
            start <= cursor <= s@.len(),
            digits_end(s@, start as int) == digits_end(s@, cursor as int),
            all_digits(s@.subrange(start as int, cursor as int)),
            !big ==> value as nat == decimal_value(s@.subrange(start as int, cursor as int)),
            !big ==> value <= 65535,
            big ==> decimal_value(s@.subrange(start as int, cursor as int)) > 65535,
        decreases s@.len() - cursor,
    {
        let d = (s[cursor] as u32) - ('0' as u32);
        let ghost run = s@.subrange(start as int, cursor + 1);
        assert(run.drop_last() =~= s@.subrange(start as int, cursor as int));
        assert(run.last() == s@[cursor as int]);
        if !big {
            value = value * 10 + d;
            if value > 65535 {
                big = true;
            }
        } else {
            assert(decimal_value(run) >= decimal_value(run.drop_last()) * 10);
        }
        cursor = cursor + 1;
    }
    proof {
        lemma_skip_bounds(s@, i + 4);
        lemma_digits_end_bounds(s@, start as int);
    }
    if cursor == start {
        return None;
    }
    if big || value < 1024 {
        return None;
    }
    Some(value as u16)
}

/// Pulls port declarations out of one file's text: each distinct port once, in text order.
pub fn ports_in(text: &str) -> (r: Vec<u16>)
    ensures
        r@ == ports_in_spec(text@),
{
    let s = chars_of(text);
    let mut found: Vec<u16> = Vec::new();
    let mut i: usize = 0;
    while i < s.len()
        invariant
            i <= s@.len(),
            found@ == ports_before(s@, i as int),
        decreases s@.len() - i,
    {
        match port_at_exec(s.as_slice(), i) {
            Some(p) => {
                if !contains_port(&found, p) {
                    found.push(p);
                }
            },
            None => {},
        }
        i = i + 1;
    }
    found
}

/// The distinct ports across several declaration files, in file order then text order.
pub open spec fn declared_across(heads: Seq<Seq<char>>) -> Seq<u16>
    decreases heads.len(),
{
    if heads.len() == 0 {
        Seq::empty()
    } else {
        append_new(declared_across(heads.drop_last()), ports_in_spec(heads.last()))
    }
}

/// `base` followed by the ports of `more` it does not already hold.
pub open spec fn append_new(base: Seq<u16>, more: Seq<u16>) -> Seq<u16>
    decreases more.len(),
{
    if more.len() == 0 {
        base
    } else {
        let prev = append_new(base, more.drop_last());
        if prev.contains(more.last()) { prev } else { prev.push(more.last()) }
    }
}

/// Merges the declarations read from a workspace's files, most specific file first.
pub fn declared_ports_from(heads: &[String]) -> (r: Vec<u16>)
    ensures
        r@ == declared_across(crate::text::strings_view(heads@)),
{
    let mut ports: Vec<u16> = Vec::new();
    let mut h: usize = 0;
    while h < heads.len()
        invariant
            h <= heads@.len(),
            ports@ == declared_across(crate::text::strings_view(heads@.take(h as int))),
        decreases heads@.len() - h,
    {
        let found = ports_in(heads[h].as_str());
        let ghost base = ports@;
        let mut k: usize = 0;
        while k < found.len()
            invariant
                k <= found@.len(),
                ports@ == append_new(base, found@.take(k as int)),
            decreases found@.len() - k,
        {
            assert(found@.take(k + 1).drop_last() =~= found@.take(k as int));
            if !contains_port(&ports, found[k]) {
                ports.push(found[k]);
            }
            k = k + 1;
        }
        proof {
            assert(found@.take(found@.len() as int) =~= found@);
            let v = crate::text::strings_view(heads@.take(h + 1));
            assert(v.drop_last() =~= crate::text::strings_view(heads@.take(h as int)));
            assert(v.last() == heads@[h as int]@);
        }
        h = h + 1;
    }
    assert(heads@.take(heads@.len() as int) =~= heads@);
    ports
}

} // verus!
