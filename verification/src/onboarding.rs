//! Which onboarding hints an operator dismissed, whether contextual tips
//! show, and how far the guided tour went.
use vstd::prelude::*;

use crate::text::{
    char_is_whitespace, chars_of, contains_exec, contains_seq, lemma_sort_names, lex_lt, names_ascending,
    sort_names, sorted_strings, str_eq, strings_view, trim_end_spec, trim_spec, trim_start_spec, trimmed_chars,
    into_string, insert_sorted_name,
};

verus! {

/// Where the settings live below the Wardian home.
pub const ONBOARDING_HINTS_FILE: &'static str = "settings/onboarding.json";

#[derive(Debug, Clone, Copy, PartialEq, Eq, Structural)]
pub enum GuidedTourState {
    Unseen,
    InProgress,
    Skipped,
    Completed,
}

#[derive(Debug, Clone, PartialEq, Eq)]
pub struct OnboardingHintsState {
    pub dismissed_hint_ids: Vec<String>,
    pub contextual_tips_enabled: bool,
    pub guided_tour_state: GuidedTourState,
}

/// The settings as plain values.
pub struct HintsView {
    pub dismissed: Seq<Seq<char>>,
    pub tips: bool,
    pub tour: GuidedTourState,
}

impl OnboardingHintsState {
    pub open spec fn view_of(&self) -> HintsView {
        HintsView {
            dismissed: strings_view(self.dismissed_hint_ids@),
            tips: self.contextual_tips_enabled,
            tour: self.guided_tour_state,
        }
    }
}

pub open spec fn default_hints() -> HintsView {
    HintsView { dismissed: Seq::empty(), tips: true, tour: GuidedTourState::Unseen }
}

impl Default for OnboardingHintsState {
    fn default() -> (r: Self)
        ensures
            r.view_of() == default_hints(),
    {
        let r = OnboardingHintsState {
            dismissed_hint_ids: Vec::new(),
            contextual_tips_enabled: true,
            guided_tour_state: GuidedTourState::Unseen,
        };
        assert(strings_view(r.dismissed_hint_ids@) =~= Seq::<Seq<char>>::empty());
        r
    }
}

/// The identities trimmed, with blank ones dropped.
pub open spec fn clean_ids(ids: Seq<Seq<char>>) -> Seq<Seq<char>>
    decreases ids.len(),
{
    if ids.len() == 0 {
        Seq::empty()
    } else {
        let p = clean_ids(ids.drop_last());
        let t = trim_spec(ids.last());
        if t.len() == 0 { p } else { p.push(t) }
    }
}

/// Runs of equal neighbours reduced to one, as `Vec::dedup` does.
pub open spec fn dedup_spec(s: Seq<Seq<char>>) -> Seq<Seq<char>>
    decreases s.len(),
{
    if s.len() == 0 {
        Seq::empty()
    } else {
        let p = dedup_spec(s.drop_last());
        if p.len() > 0 && p.last() == s.last() { p } else { p.push(s.last()) }
    }
}

/// The dismissed identities as they are stored: trimmed, non-blank, sorted, each once.
pub open spec fn normalize_ids(ids: Seq<Seq<char>>) -> Seq<Seq<char>> {
    dedup_spec(sort_names(clean_ids(ids)))
}

pub open spec fn normalize_spec(v: HintsView) -> HintsView {
    HintsView { dismissed: normalize_ids(v.dismissed), ..v }
}

fn clean_hint_ids(ids: Vec<String>) -> (r: Vec<String>)
    ensures
        strings_view(r@) == clean_ids(strings_view(ids@)),
{
    let ghost v = strings_view(ids@);
    let mut out: Vec<String> = Vec::new();
    let mut i: usize = 0;
    while i < ids.len()
        invariant
            i <= ids@.len(),
            v == strings_view(ids@),
            strings_view(out@) == clean_ids(v.take(i as int)),
        decreases ids@.len() - i,
    {
        let t = trimmed_chars(ids[i].as_str());
        let ghost before = out@;
        if t.len() > 0 {
            out.push(into_string(t));
            assert(strings_view(out@) =~= strings_view(before).push(trim_spec(v[i as int])));
        }
        assert(v.take(i + 1).drop_last() =~= v.take(i as int));
        i = i + 1;
    }
    assert(v.take(v.len() as int) =~= v);
    out
}

fn dedup_strings(s: Vec<String>) -> (r: Vec<String>)
    ensures
        strings_view(r@) == dedup_spec(strings_view(s@)),
{
    let ghost v = strings_view(s@);
    let mut out: Vec<String> = Vec::new();
    let mut i: usize = 0;
    while i < s.len()
        invariant
            i <= s@.len(),
            v == strings_view(s@),
            strings_view(out@) == dedup_spec(v.take(i as int)),
        decreases s@.len() - i,
    {
        let ghost before = out@;
        let same = out.len() > 0 && str_eq(out[out.len() - 1].as_str(), s[i].as_str());
        if !same {
            out.push(s[i].clone());
            assert(strings_view(out@) =~= strings_view(before).push(v[i as int]));
        }
        assert(v.take(i + 1).drop_last() =~= v.take(i as int));
        i = i + 1;
    }
    assert(v.take(v.len() as int) =~= v);
    out
}

/// The settings as they are stored and handed back.
pub fn normalize_onboarding_state(state: OnboardingHintsState) -> (r: OnboardingHintsState)
    ensures
        r.view_of() == normalize_spec(state.view_of()),
{
    let cleaned = clean_hint_ids(state.dismissed_hint_ids);
    let sorted = sorted_strings(cleaned);
    let ids = dedup_strings(sorted);
    OnboardingHintsState {
        dismissed_hint_ids: ids,
        contextual_tips_enabled: state.contextual_tips_enabled,
        guided_tour_state: state.guided_tour_state,
    }
}

/// What loading gives: the defaults when nothing is stored; otherwise the
/// stored settings normalized, with the tour taken as skipped when the file
/// predates the tour (it never mentions `"guided_tour_state"`).
pub open spec fn load_spec(stored: Option<(HintsView, Seq<char>)>) -> HintsView {
    match stored {
        None => default_hints(),
        Some((v, content)) => {
            let tour = if contains_seq(content, "\"guided_tour_state\""@) { v.tour } else { GuidedTourState::Skipped };
            normalize_spec(HintsView { tour, ..v })
        },
    }
}

/// Loads the settings from what the file held: its parsed value and its text,
/// or nothing when there is no file.
pub fn load_onboarding_hints(stored: Option<(OnboardingHintsState, String)>) -> (r: OnboardingHintsState)
    ensures
        r.view_of() == load_spec(match stored { Some((s, c)) => Some((s.view_of(), c@)), None => None }),
{
    match stored {
        None => OnboardingHintsState::default(),
        Some((state, content)) => {
            proof { reveal_strlit("\"guided_tour_state\""); }
            let text = chars_of(content.as_str());
            let key = chars_of("\"guided_tour_state\"");
            let mut s = state;
            if !contains_exec(text.as_slice(), key.as_slice()) {
                s.guided_tour_state = GuidedTourState::Skipped;
            }
            normalize_onboarding_state(s)
        },
    }
}

pub open spec fn base_state(loaded: Option<HintsView>) -> HintsView {
    match loaded {
        Some(v) => v,
        None => default_hints(),
    }
}

pub open spec fn loaded_view(loaded: Option<OnboardingHintsState>) -> Option<HintsView> {
    match loaded {
        Some(s) => Some(s.view_of()),
        None => None,
    }
}

fn base(loaded: Option<OnboardingHintsState>) -> (r: OnboardingHintsState)
    ensures
        r.view_of() == base_state(loaded_view(loaded)),
{
    match loaded {
        Some(s) => s,
        None => OnboardingHintsState::default(),
    }
}

/// Dismisses a hint: its trimmed identity joins the loaded settings (the
/// defaults when they could not be loaded). A blank identity is refused.
pub fn dismiss_onboarding_hint(loaded: Option<OnboardingHintsState>, hint_id: &str) -> (r: Result<OnboardingHintsState, String>)
    ensures
        trim_spec(hint_id@).len() == 0 ==> (r matches Err(e) && e@ == "Missing onboarding hint id"@),
        trim_spec(hint_id@).len() > 0 ==> (r matches Ok(s) && s.view_of() == normalize_spec(HintsView {
            dismissed: base_state(loaded_view(loaded)).dismissed.push(trim_spec(hint_id@)),
            ..base_state(loaded_view(loaded))
        })),
{
    let t = trimmed_chars(hint_id);
    if t.len() == 0 {
        return Err("Missing onboarding hint id".to_owned());
    }
    let mut state = base(loaded);
    let ghost before = state.dismissed_hint_ids@;
    state.dismissed_hint_ids.push(into_string(t));
    assert(strings_view(state.dismissed_hint_ids@) =~= strings_view(before).push(trim_spec(hint_id@)));
    Ok(normalize_onboarding_state(state))
}

/// Turns contextual tips on or off, keeping everything else.
pub fn set_contextual_tips_enabled(loaded: Option<OnboardingHintsState>, enabled: bool) -> (r: OnboardingHintsState)
    ensures
        r.view_of() == normalize_spec(HintsView { tips: enabled, ..base_state(loaded_view(loaded)) }),
{
    let mut state = base(loaded);
    state.contextual_tips_enabled = enabled;
    normalize_onboarding_state(state)
}

/// Records the guided tour's state, keeping everything else.
pub fn set_guided_tour_state(loaded: Option<OnboardingHintsState>, tour: GuidedTourState) -> (r: OnboardingHintsState)
    ensures
        r.view_of() == normalize_spec(HintsView { tour, ..base_state(loaded_view(loaded)) }),
{
    let mut state = base(loaded);
    state.guided_tour_state = tour;
    normalize_onboarding_state(state)
}

/// Forgets every dismissal, keeping the other settings.
pub fn reset_onboarding_hints(loaded: Option<OnboardingHintsState>) -> (r: OnboardingHintsState)
    ensures
        r.view_of() == normalize_spec(HintsView { dismissed: Seq::empty(), ..base_state(loaded_view(loaded)) }),
{
    let mut state = base(loaded);
    state.dismissed_hint_ids.clear();
    assert(strings_view(state.dismissed_hint_ids@) =~= Seq::<Seq<char>>::empty());
    normalize_onboarding_state(state)
}

// ---------------------------------------------------------------------------
// Normalizing twice changes nothing

proof fn lemma_trim_start_shape(s: Seq<char>)
    ensures
        trim_start_spec(s).len() == 0 || !char_is_whitespace(trim_start_spec(s)[0]),
    decreases s.len(),
{
    if s.len() > 0 && char_is_whitespace(s[0]) {
        lemma_trim_start_shape(s.drop_first());
    }
}

proof fn lemma_trim_end_shape(s: Seq<char>)
    ensures
        trim_end_spec(s).len() <= s.len(),
        s.take(trim_end_spec(s).len() as int) == trim_end_spec(s),
        trim_end_spec(s).len() == 0 || !char_is_whitespace(trim_end_spec(s).last()),
    decreases s.len(),
{
    if s.len() > 0 && char_is_whitespace(s.last()) {
        lemma_trim_end_shape(s.drop_last());
        let t = trim_end_spec(s.drop_last());
        assert(s.take(t.len() as int) =~= s.drop_last().take(t.len() as int));
    } else {
        assert(s.take(s.len() as int) =~= s);
    }
}

/// Trimming what is trimmed changes nothing.
pub proof fn lemma_trim_idempotent(x: Seq<char>)
    ensures
        trim_spec(trim_spec(x)) == trim_spec(x),
{
    let u = trim_start_spec(x);
    let t = trim_end_spec(u);
    lemma_trim_start_shape(x);
    lemma_trim_end_shape(u);
    if t.len() == 0 {
        assert(trim_start_spec(t) == t);
        assert(trim_end_spec(t) == t);
    } else {
        assert(t[0] == u.take(t.len() as int)[0]);
        assert(!char_is_whitespace(t[0]));
        assert(trim_start_spec(t) == t);
        assert(trim_end_spec(t) == t);
    }
}

/// Every identity is trimmed and not blank.
pub open spec fn all_clean(s: Seq<Seq<char>>) -> bool {
    forall|i: int| 0 <= i < s.len() ==> trim_spec(#[trigger] s[i]) == s[i] && s[i].len() > 0
}

proof fn lemma_clean_ids_clean(ids: Seq<Seq<char>>)
    ensures
        all_clean(clean_ids(ids)),
    decreases ids.len(),
{
    if ids.len() > 0 {
        lemma_clean_ids_clean(ids.drop_last());
        lemma_trim_idempotent(ids.last());
        let p = clean_ids(ids.drop_last());
        let r = clean_ids(ids);
        assert forall|i: int| 0 <= i < r.len() implies trim_spec(#[trigger] r[i]) == r[i] && r[i].len() > 0 by {
            if i < p.len() {
                assert(r[i] == p[i]);
            }
        }
    }
}

proof fn lemma_clean_ids_fixed(ids: Seq<Seq<char>>)
    requires
        all_clean(ids),
    ensures
        clean_ids(ids) == ids,
    decreases ids.len(),
{
    if ids.len() > 0 {
        let d = ids.drop_last();
        assert(all_clean(d)) by {
            assert forall|i: int| 0 <= i < d.len() implies trim_spec(#[trigger] d[i]) == d[i] && d[i].len() > 0 by {
                assert(d[i] == ids[i]);
            }
        }
        lemma_clean_ids_fixed(d);
        assert(trim_spec(ids[ids.len() - 1]) == ids[ids.len() - 1]);
        assert(ids =~= d.push(ids.last()));
    }
}

proof fn lemma_sort_keeps_clean(s: Seq<Seq<char>>)
    requires
        all_clean(s),
    ensures
        all_clean(sort_names(s)),
    decreases s.len(),
{
    if s.len() > 0 {
        let d = s.drop_last();
        assert(all_clean(d)) by {
            assert forall|i: int| 0 <= i < d.len() implies trim_spec(#[trigger] d[i]) == d[i] && d[i].len() > 0 by {
                assert(d[i] == s[i]);
            }
        }
        lemma_sort_keeps_clean(d);
        lemma_sort_names(d);
        crate::text::lemma_insert_sorted_name(sort_names(d), s.last());
        let p = sort_names(d);
        let r = sort_names(s);
        assert forall|k: int| 0 <= k < r.len() implies trim_spec(#[trigger] r[k]) == r[k] && r[k].len() > 0 by {
            if r[k] == s.last() {
                assert(s[s.len() - 1] == s.last());
            } else {
                let m = choose|m: int| 0 <= m < p.len() && p[m] == r[k];
                assert(trim_spec(p[m]) == p[m]);
            }
        }
    }
}

/// Each identity sorts strictly before the next.
pub open spec fn strictly_ascending(s: Seq<Seq<char>>) -> bool {
    forall|i: int, j: int| 0 <= i < j < s.len() ==> lex_lt(#[trigger] s[i], #[trigger] s[j])
}

proof fn lemma_dedup_sorted(s: Seq<Seq<char>>)
    requires
        names_ascending(s),
        all_clean(s),
    ensures
        strictly_ascending(dedup_spec(s)),
        all_clean(dedup_spec(s)),
        s.len() > 0 ==> dedup_spec(s).len() > 0 && dedup_spec(s).last() == s.last(),
    decreases s.len(),
{
    if s.len() > 0 {
        let d = s.drop_last();
        assert(names_ascending(d));
        assert(all_clean(d)) by {
            assert forall|i: int| 0 <= i < d.len() implies trim_spec(#[trigger] d[i]) == d[i] && d[i].len() > 0 by {
                assert(d[i] == s[i]);
            }
        }
        lemma_dedup_sorted(d);
        let p = dedup_spec(d);
        let r = dedup_spec(s);
        if !(p.len() > 0 && p.last() == s.last()) {
            assert(r == p.push(s.last()));
            if p.len() > 0 {
                assert(p.last() == d.last());
                assert(!lex_lt(s[s.len() - 1], s[s.len() - 2]));
                crate::text::lemma_lex_total(p.last(), s.last());
            }
            assert forall|i: int, j: int| 0 <= i < j < r.len() implies lex_lt(#[trigger] r[i], #[trigger] r[j]) by {
                if j == r.len() - 1 {
                    if i < p.len() - 1 {
                        assert(lex_lt(p[i], p[p.len() - 1]));
                        crate::text::lemma_lex_transitive(p[i], p.last(), s.last());
                    }
                } else {
                    assert(r[i] == p[i] && r[j] == p[j]);
                }
            }
            assert forall|i: int| 0 <= i < r.len() implies trim_spec(#[trigger] r[i]) == r[i] && r[i].len() > 0 by {
                if i < p.len() {
                    assert(r[i] == p[i]);
                } else {
                    assert(s[s.len() - 1] == r[i]);
                }
            }
        }
    }
}

proof fn lemma_sort_fixed(s: Seq<Seq<char>>)
    requires
        strictly_ascending(s),
    ensures
        sort_names(s) == s,
    decreases s.len(),
{
    if s.len() > 0 {
        let d = s.drop_last();
        assert(strictly_ascending(d));
        lemma_sort_fixed(d);
        if d.len() > 0 {
            assert(lex_lt(s[s.len() - 2], s[s.len() - 1]));
            crate::text::lemma_lex_facts(s[s.len() - 2], s[s.len() - 1], s[s.len() - 1]);
            assert(!lex_lt(s.last(), d.last()));
        }
        assert(s =~= d.push(s.last()));
    }
}

proof fn lemma_dedup_fixed(s: Seq<Seq<char>>)
    requires
        strictly_ascending(s),
    ensures
        dedup_spec(s) == s,
    decreases s.len(),
{
    if s.len() > 0 {
        let d = s.drop_last();
        assert(strictly_ascending(d));
        lemma_dedup_fixed(d);
        if d.len() > 0 {
            assert(lex_lt(s[s.len() - 2], s[s.len() - 1]));
            crate::text::lemma_lex_irreflexive(s.last());
        }
        assert(s =~= d.push(s.last()));
    }
}

/// Normalizing stored identities a second time changes nothing.
pub proof fn law_normalizing_twice_changes_nothing(ids: Seq<Seq<char>>)
    ensures
        normalize_ids(normalize_ids(ids)) == normalize_ids(ids),
        strictly_ascending(normalize_ids(ids)),
        all_clean(normalize_ids(ids)),
{
    let c = clean_ids(ids);
    lemma_clean_ids_clean(ids);
    lemma_sort_names(c);
    lemma_sort_keeps_clean(c);
    lemma_dedup_sorted(sort_names(c));
    let n = normalize_ids(ids);
    lemma_clean_ids_fixed(n);
    lemma_sort_fixed(n);
    lemma_dedup_fixed(n);
}

/// Settings that were saved load back unchanged: what is saved is normalized
/// and names the tour's state.
pub proof fn law_saved_settings_reload_unchanged(v: HintsView, content: Seq<char>)
    requires
        contains_seq(content, "\"guided_tour_state\""@),
    ensures
        load_spec(Some((normalize_spec(v), content))) == normalize_spec(v),
{
    law_normalizing_twice_changes_nothing(v.dismissed);
}

} // verus!
