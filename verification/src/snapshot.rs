//! Snapshot refs (`e1`, `e2`, ...) and the ledger that decides whether one may be acted on.
use vstd::prelude::*;

use crate::text::{lemma_decimal_round_trip, char_seqs, join_spec, push_words_joined, words, words_of, all_digits, char_is_whitespace, chars_eq, chars_of, decimal_chars, decimal_value, is_ascii_alpha, is_ascii_digit, is_ascii_lower, parse_unsigned, parse_unsigned_spec, push_decimal, push_str_chars, starts_with, starts_with_exec, string_from_chars, str_eq};

verus! {

/// Ceiling on the characters kept from any one snapshot field.
pub const MAX_SNAPSHOT_FIELD_CHARS: usize = 200;

/// Ceiling on the elements one snapshot records.
pub const MAX_SNAPSHOT_ELEMENTS: usize = 400;

/// Why a ref could not be acted on.
#[derive(Debug, Clone, PartialEq, Eq)]
pub enum RefError {
    /// The page changed generation since the snapshot that minted this ref.
    Stale { element_ref: String, snapshot_generation: u64, current_generation: u64 },
    /// No snapshot has been taken on the current generation.
    NoSnapshot,
    /// The ref is not an `e<number>` token.
    Malformed { element_ref: String },
    /// The ref was minted by the current snapshot but is no longer in the DOM.
    Detached { element_ref: String },
    /// The element still exists but is no longer what the snapshot described.
    Changed { element_ref: String },
    /// The ref matched several elements, so acting on it would be a guess.
    Ambiguous { element_ref: String },
}

/// The stable machine-readable code of each ref failure.
pub open spec fn ref_error_code_spec(e: RefError) -> Seq<char> {
    match e {
        RefError::Stale { .. } => "snapshot_stale"@,
        RefError::NoSnapshot => "snapshot_missing"@,
        RefError::Malformed { .. } => "ref_malformed"@,
        RefError::Detached { .. } => "ref_detached"@,
        RefError::Changed { .. } => "ref_changed"@,
        RefError::Ambiguous { .. } => "ref_ambiguous"@,
    }
}

/// The operator-facing sentence for each ref failure.
pub open spec fn ref_error_message_spec(e: RefError) -> Seq<char> {
    match e {
        RefError::Stale { element_ref, snapshot_generation, current_generation } =>
            element_ref@ + " came from snapshot generation "@
                + decimal_chars(snapshot_generation as nat)
                + ", but the page is now at generation "@
                + decimal_chars(current_generation as nat)
                + ". Re-run snapshot and use the new refs."@,
        RefError::NoSnapshot =>
            "no snapshot has been taken for the current page. Run snapshot first."@,
        RefError::Malformed { element_ref } =>
            element_ref@ + " is not a valid element ref; refs look like e1, e2, e3"@,
        RefError::Detached { element_ref } =>
            element_ref@ + " is no longer present in the page. Re-run snapshot and use the new refs."@,
        RefError::Changed { element_ref } =>
            element_ref@ + " now points at different content than the snapshot described. Re-run snapshot and use the new refs."@,
        RefError::Ambiguous { element_ref } =>
            element_ref@ + " matches more than one element. Re-run snapshot and use the new refs."@,
    }
}

impl RefError {
    /// Stable machine-readable code, so agents can branch without parsing prose.
    pub fn code(&self) -> (r: &'static str)
        ensures
            r@ == ref_error_code_spec(*self),
    {
        match self {
            RefError::Stale { .. } => "snapshot_stale",
            RefError::NoSnapshot => "snapshot_missing",
            RefError::Malformed { .. } => "ref_malformed",
            RefError::Detached { .. } => "ref_detached",
            RefError::Changed { .. } => "ref_changed",
            RefError::Ambiguous { .. } => "ref_ambiguous",
        }
    }

    /// The operator-facing explanation of this failure.
    pub fn message(&self) -> (r: String)
        ensures
            r@ == ref_error_message_spec(*self),
    {
        let mut out: Vec<char> = Vec::new();
        match self {
            RefError::Stale { element_ref, snapshot_generation, current_generation } => {
                push_str_chars(&mut out, element_ref.as_str());
                push_str_chars(&mut out, " came from snapshot generation ");
                push_decimal(&mut out, *snapshot_generation);
                push_str_chars(&mut out, ", but the page is now at generation ");
                push_decimal(&mut out, *current_generation);
                push_str_chars(&mut out, ". Re-run snapshot and use the new refs.");
            },
            RefError::NoSnapshot => {
                push_str_chars(&mut out, "no snapshot has been taken for the current page. Run snapshot first.");
            },
            RefError::Malformed { element_ref } => {
                push_str_chars(&mut out, element_ref.as_str());
                push_str_chars(&mut out, " is not a valid element ref; refs look like e1, e2, e3");
            },
            RefError::Detached { element_ref } => {
                push_str_chars(&mut out, element_ref.as_str());
                push_str_chars(&mut out, " is no longer present in the page. Re-run snapshot and use the new refs.");
            },
            RefError::Changed { element_ref } => {
                push_str_chars(&mut out, element_ref.as_str());
                push_str_chars(&mut out, " now points at different content than the snapshot described. Re-run snapshot and use the new refs.");
            },
            RefError::Ambiguous { element_ref } => {
                push_str_chars(&mut out, element_ref.as_str());
                push_str_chars(&mut out, " matches more than one element. Re-run snapshot and use the new refs.");
            },
        }
        proof {
            assert(out@ =~= ref_error_message_spec(*self));
        }
        string_from_chars(out.as_slice())
    }
}

/// What a ref pointed at when the snapshot minted it.
#[derive(Debug, Clone, PartialEq, Eq)]
pub struct RefIdentity {
    pub role: String,
    pub name: String,
}

/// One element a snapshot recorded.
#[derive(Debug, Clone, PartialEq, Eq)]
pub struct SnapshotElement {
    pub element_ref: String,
    pub role: String,
    pub name: String,
    pub value: String,
    pub enabled: bool,
    pub checked: Option<bool>,
}

/// `e12` is ref 12: an `e`, then one or more ASCII digits whose value fits a `usize`.
pub open spec fn parse_ref_spec(s: Seq<char>) -> Option<nat> {
    if s.len() >= 2 && s[0] == 'e' && all_digits(s.drop_first())
        && decimal_value(s.drop_first()) <= usize::MAX {
        Some(decimal_value(s.drop_first()))
    } else {
        None
    }
}

/// Parses `e12` into `12`. Returns `None` for anything else.
pub fn parse_ref(element_ref: &str) -> (r: Option<usize>)
    ensures
        match r {
            Some(v) => parse_ref_spec(element_ref@) == Some(v as nat),
            None => parse_ref_spec(element_ref@) is None,
        },
{
    let cs = chars_of(element_ref);
    parse_ref_chars(cs.as_slice())
}

fn parse_ref_chars(cs: &[char]) -> (r: Option<usize>)
    ensures
        match r {
            Some(v) => parse_ref_spec(cs@) == Some(v as nat),
            None => parse_ref_spec(cs@) is None,
        },
{
    if cs.len() < 2 || cs[0] != 'e' {
        return None;
    }
    let digits = &cs[1..cs.len()];
    assert(digits@ =~= cs@.drop_first());
    if digits.len() > 0 && digits[0] == '+' {
        assert(!is_ascii_digit(digits@[0]));
        return None;
    }
    match parse_unsigned(digits, usize::MAX as u64) {
        Some(v) => Some(v as usize),
        None => None,
    }
}

/// The ghost model of the ledger: generations and the refs the live snapshot minted.
pub struct LedgerView {
    pub current_generation: nat,
    pub snapshot_generation: Option<nat>,
    pub minted: Seq<(Seq<char>, RefIdentity)>,
}

/// The identity a snapshot recorded for `r`; a later duplicate overrides an earlier one.
pub open spec fn minted_lookup(minted: Seq<(Seq<char>, RefIdentity)>, r: Seq<char>) -> Option<RefIdentity>
    decreases minted.len(),
{
    if minted.len() == 0 {
        None
    } else if minted.last().0 == r {
        Some(minted.last().1)
    } else {
        minted_lookup(minted.drop_last(), r)
    }
}

/// Records which generation the live snapshot belongs to.
#[derive(Debug)]
pub struct SnapshotLedger {
    current_generation: u64,
    snapshot_generation: Option<u64>,
    minted: Vec<(String, RefIdentity)>,
}

impl View for SnapshotLedger {
    type V = LedgerView;

    closed spec fn view(&self) -> LedgerView {
        LedgerView {
            current_generation: self.current_generation as nat,
            snapshot_generation: match self.snapshot_generation {
                Some(g) => Some(g as nat),
                None => None,
            },
            minted: self.minted@.map_values(|entry: (String, RefIdentity)| (entry.0@, entry.1)),
        }
    }
}

/// A snapshot never belongs to a generation that has not happened yet.
pub open spec fn ledger_wf(l: LedgerView) -> bool {
    l.snapshot_generation matches Some(g) ==> g <= l.current_generation
}

/// The ledger after a committed navigation.
pub open spec fn invalidated(l: LedgerView) -> LedgerView {
    LedgerView { current_generation: l.current_generation + 1, ..l }
}

/// A ref written for a number reads back as that number: `e` and the
/// decimal digits of `n` parse to `n`.
pub proof fn law_a_written_ref_parses_back(n: nat)
    requires
        n <= usize::MAX,
    ensures
        parse_ref_spec("e"@ + decimal_chars(n)) == Some(n),
{
    reveal_strlit("e");
    lemma_decimal_round_trip(n);
    let s = "e"@ + decimal_chars(n);
    assert(s.drop_first() =~= decimal_chars(n));
}

/// After a committed navigation, every well-formed ref the previous
/// snapshot could have minted is refused as stale, naming both generations;
/// it is never taken for "no snapshot".
pub proof fn law_refs_are_stale_after_a_navigation(l: LedgerView, r: Seq<char>, out: Result<&RefIdentity, RefError>)
    requires
        ledger_wf(l),
        l.snapshot_generation is Some,
        parse_ref_spec(r) is Some,
        validate_outcome(invalidated(l), r, out),
    ensures
        out matches Err(RefError::Stale { element_ref, snapshot_generation, current_generation })
            && element_ref@ == r
            && snapshot_generation as nat == l.snapshot_generation->0
            && current_generation as nat == l.current_generation + 1,
{
}

/// Whether a validation outcome is the one the ledger owes for `r`.
///
/// Shape is checked first, then that a snapshot exists, then that it belongs
/// to the current generation, and only then that it minted `r`.
pub open spec fn validate_outcome(l: LedgerView, r: Seq<char>, out: Result<&RefIdentity, RefError>) -> bool {
    if parse_ref_spec(r) is None {
        out matches Err(RefError::Malformed { element_ref }) && element_ref@ == r
    } else if l.snapshot_generation is None {
        out matches Err(RefError::NoSnapshot)
    } else if l.snapshot_generation->0 != l.current_generation {
        out matches Err(RefError::Stale { element_ref, snapshot_generation, current_generation })
            && element_ref@ == r
            && snapshot_generation as nat == l.snapshot_generation->0
            && current_generation as nat == l.current_generation
    } else {
        match minted_lookup(l.minted, r) {
            Some(identity) => out matches Ok(found) && *found == identity,
            None => out matches Err(RefError::Detached { element_ref }) && element_ref@ == r,
        }
    }
}

impl SnapshotLedger {
    #[verifier::type_invariant]
    spec fn snapshot_not_ahead(self) -> bool {
        self.snapshot_generation matches Some(g) ==> g <= self.current_generation
    }

    /// Every ledger keeps its snapshot at or behind the current generation.
    pub fn check_wf(&self)
        ensures
            ledger_wf(self@),
    {
        proof { use_type_invariant(self); }
    }

    /// A ledger before any navigation or snapshot.
    pub fn new() -> (l: Self)
        ensures
            ledger_wf(l@),
            l@.current_generation == 0,
            l@.snapshot_generation is None,
            l@.minted.len() == 0,
    {
        SnapshotLedger { current_generation: 0, snapshot_generation: None, minted: Vec::new() }
    }

    pub fn current_generation(&self) -> (g: u64)
        ensures
            g as nat == self@.current_generation,
    {
        self.current_generation
    }

    /// Invalidates outstanding refs. Called on every committed navigation.
    ///
    /// The previous snapshot's generation is retained, so a ref used after a
    /// navigation reports "stale" rather than "no snapshot".
    pub fn invalidate(&mut self) -> (g: u64)
        requires
            old(self)@.current_generation < u64::MAX,
        ensures
            ledger_wf(final(self)@),
            final(self)@ == invalidated(old(self)@),
            g as nat == final(self)@.current_generation,
    {
        proof { use_type_invariant(&*self); }
        self.current_generation = self.current_generation + 1;
        self.current_generation
    }

    /// Records a snapshot taken against the current generation, replacing the previous refs.
    pub fn record_snapshot(&mut self, elements: &[SnapshotElement]) -> (g: u64)
        ensures
            ledger_wf(final(self)@),
            final(self)@.current_generation == old(self)@.current_generation,
            final(self)@.snapshot_generation == Some(old(self)@.current_generation),
            g as nat == old(self)@.current_generation,
            final(self)@.minted.len() == elements@.len(),
            forall|i: int| 0 <= i < elements@.len() ==> #[trigger] final(self)@.minted[i] == (
                elements@[i].element_ref@,
                (RefIdentity { role: elements@[i].role, name: elements@[i].name }),
            ),
    {
        let mut minted: Vec<(String, RefIdentity)> = Vec::new();
        let mut i: usize = 0;
        while i < elements.len()
            invariant
                i <= elements@.len(),
                minted@.len() == i,
                forall|j: int| 0 <= j < i ==> #[trigger] minted@[j].0@ == elements@[j].element_ref@
                    && minted@[j].1 == (RefIdentity { role: elements@[j].role, name: elements@[j].name }),
            decreases elements@.len() - i,
        {
            let element = &elements[i];
            minted.push((element.element_ref.clone(), RefIdentity {
                role: element.role.clone(),
                name: element.name.clone(),
            }));
            i = i + 1;
        }
        self.snapshot_generation = Some(self.current_generation);
        self.minted = minted;
        self.current_generation
    }

    /// Checks a ref against the ledger before it is used in an action.
    pub fn validate(&self, element_ref: &str) -> (r: Result<&RefIdentity, RefError>)
        ensures
            ledger_wf(self@),
            validate_outcome(self@, element_ref@, r),
    {
        proof { use_type_invariant(self); }
        if parse_ref(element_ref).is_none() {
            return Err(RefError::Malformed { element_ref: element_ref.to_owned() });
        }
        let snapshot_generation = match self.snapshot_generation {
            Some(g) => g,
            None => return Err(RefError::NoSnapshot),
        };
        if snapshot_generation != self.current_generation {
            return Err(RefError::Stale {
                element_ref: element_ref.to_owned(),
                snapshot_generation,
                current_generation: self.current_generation,
            });
        }
        let key = chars_of(element_ref);
        let mut k: usize = self.minted.len();
        assert(self@.minted.take(k as int) =~= self@.minted);
        while k > 0
            invariant
                k <= self.minted@.len(),
                key@ == element_ref@,
                parse_ref_spec(element_ref@) is Some,
                self@.snapshot_generation == Some(self@.current_generation),
                minted_lookup(self@.minted, element_ref@)
                    == minted_lookup(self@.minted.take(k as int), element_ref@),
            decreases k,
        {
            let entry = &self.minted[k - 1];
            let name = chars_of(entry.0.as_str());
            assert(self@.minted.take(k as int).last() == (entry.0@, entry.1));
            if chars_eq(name.as_slice(), key.as_slice()) {
                assert(minted_lookup(self@.minted.take(k as int), element_ref@) == Some(entry.1));
                return Ok(&entry.1);
            }
            assert(self@.minted.take(k as int).drop_last() =~= self@.minted.take(k - 1));
            k = k - 1;
        }
        Err(RefError::Detached { element_ref: element_ref.to_owned() })
    }
}


impl Default for SnapshotLedger {
    fn default() -> (l: Self)
        ensures
            l@.current_generation == 0,
            l@.snapshot_generation is None,
            l@.minted.len() == 0,
    {
        SnapshotLedger::new()
    }
}

proof fn lemma_lookup_absent(minted: Seq<(Seq<char>, RefIdentity)>, r: Seq<char>)
    requires
        forall|i: int| 0 <= i < minted.len() ==> (#[trigger] minted[i]).0 != r,
    ensures
        minted_lookup(minted, r) is None,
    decreases minted.len(),
{
    if minted.len() > 0 {
        let d = minted.drop_last();
        assert forall|i: int| 0 <= i < d.len() implies (#[trigger] d[i]).0 != r by {
            assert(d[i] == minted[i]);
        }
        lemma_lookup_absent(d, r);
    }
}

proof fn lemma_lookup_present(minted: Seq<(Seq<char>, RefIdentity)>, r: Seq<char>, i: int)
    requires
        0 <= i < minted.len(),
        minted[i].0 == r,
    ensures
        minted_lookup(minted, r) is Some,
    decreases minted.len(),
{
    if minted.last().0 != r {
        assert(i < minted.len() - 1);
        assert(minted.drop_last()[i] == minted[i]);
        lemma_lookup_present(minted.drop_last(), r, i);
    }
}

/// A well-formed ref used after a navigation is refused as stale, whatever the
/// snapshot before the navigation minted.
pub proof fn law_navigation_makes_refs_stale(before: LedgerView, after: LedgerView, r: Seq<char>, out: Result<&RefIdentity, RefError>)
    requires
        before.snapshot_generation matches Some(g) && g <= before.current_generation,
        after == (LedgerView { current_generation: before.current_generation + 1, ..before }),
        parse_ref_spec(r) is Some,
        validate_outcome(after, r, out),
    ensures
        out matches Err(RefError::Stale { .. }),
{
}

/// After a snapshot, a ref it minted is accepted, and one it did not mint is
/// refused as detached, whatever earlier snapshots minted.
pub proof fn law_snapshot_decides_which_refs_are_live(
    after: LedgerView,
    elements: Seq<SnapshotElement>,
    r: Seq<char>,
    out: Result<&RefIdentity, RefError>,
)
    requires
        after.snapshot_generation == Some(after.current_generation),
        after.minted.len() == elements.len(),
        forall|i: int| 0 <= i < elements.len() ==> #[trigger] after.minted[i] == (
            elements[i].element_ref@,
            (RefIdentity { role: elements[i].role, name: elements[i].name }),
        ),
        parse_ref_spec(r) is Some,
        validate_outcome(after, r, out),
    ensures
        (exists|i: int| 0 <= i < elements.len() && (#[trigger] elements[i]).element_ref@ == r) ==> out is Ok,
        !(exists|i: int| 0 <= i < elements.len() && (#[trigger] elements[i]).element_ref@ == r)
            ==> out matches Err(RefError::Detached { .. }),
{
    if exists|i: int| 0 <= i < elements.len() && (#[trigger] elements[i]).element_ref@ == r {
        let i = choose|i: int| 0 <= i < elements.len() && (#[trigger] elements[i]).element_ref@ == r;
        assert(after.minted[i].0 == r);
        lemma_lookup_present(after.minted, r, i);
    } else {
        assert forall|i: int| 0 <= i < after.minted.len() implies (#[trigger] after.minted[i]).0 != r by {
            assert(after.minted[i].0 == elements[i].element_ref@);
        }
        lemma_lookup_absent(after.minted, r);
    }
}

/// A field with its whitespace runs collapsed to single spaces, cut to the cap
/// on a character boundary with `…` marking the cut.
pub open spec fn clamp_field_spec(value: Seq<char>) -> Seq<char> {
    let normalized = join_spec(words_of(value), " "@);
    if normalized.len() <= MAX_SNAPSHOT_FIELD_CHARS {
        normalized
    } else {
        normalized.take(MAX_SNAPSHOT_FIELD_CHARS - 1).push('\u{2026}')
    }
}

/// Clamps a field to `MAX_SNAPSHOT_FIELD_CHARS` characters on a character boundary.
pub fn clamp_field(value: &str) -> (r: String)
    ensures
        r@ == clamp_field_spec(value@),
{
    let cs = chars_of(value);
    let ws = words(cs.as_slice());
    let mut normalized: Vec<char> = Vec::new();
    push_words_joined(&mut normalized, ws.as_slice());
    assert(char_seqs(ws@) =~= words_of(value@));
    if normalized.len() <= MAX_SNAPSHOT_FIELD_CHARS {
        return string_from_chars(normalized.as_slice());
    }
    normalized.truncate(MAX_SNAPSHOT_FIELD_CHARS - 1);
    normalized.push('\u{2026}');
    string_from_chars(normalized.as_slice())
}

/// One element as the page's snapshot walker reported it: each field as
/// found, `None` when absent or of another kind.
#[derive(Debug, Clone, PartialEq, Eq)]
pub struct RawElement {
    pub element_ref: Option<String>,
    pub role: Option<String>,
    pub name: Option<String>,
    pub value: Option<String>,
    pub enabled: Option<bool>,
    pub checked: Option<bool>,
}

/// The walker's whole report, read the same way.
#[derive(Debug, Clone, PartialEq, Eq)]
pub struct RawSnapshot {
    pub url: Option<String>,
    pub title: Option<String>,
    pub elements: Option<Vec<RawElement>>,
    pub truncated: Option<bool>,
}

/// A snapshot of one page generation, every field clamped.
#[derive(Debug, Clone, PartialEq, Eq)]
pub struct PageSnapshot {
    pub generation: u64,
    pub url: String,
    pub title: String,
    pub interactive_only: bool,
    pub truncated: bool,
    pub elements: Vec<SnapshotElement>,
}

pub open spec fn text_or_empty(o: Option<String>) -> Seq<char> {
    match o {
        Some(s) => s@,
        None => Seq::empty(),
    }
}

/// An element by its view.
pub open spec fn element_view(e: SnapshotElement) -> (Seq<char>, Seq<char>, Seq<char>, Seq<char>, bool, Option<bool>) {
    (e.element_ref@, e.role@, e.name@, e.value@, e.enabled, e.checked)
}

/// The element a raw report becomes: its ref as is, the text fields clamped
/// (empty when absent), enabled unless it says otherwise.
pub open spec fn element_from_raw(raw: RawElement) -> (Seq<char>, Seq<char>, Seq<char>, Seq<char>, bool, Option<bool>) {
    (
        text_or_empty(raw.element_ref),
        clamp_field_spec(text_or_empty(raw.role)),
        clamp_field_spec(text_or_empty(raw.name)),
        clamp_field_spec(text_or_empty(raw.value)),
        match raw.enabled { Some(b) => b, None => true },
        raw.checked,
    )
}

/// The raw elements whose ref is a well-formed `e<number>`, as elements, in order.
pub open spec fn kept_elements(raws: Seq<RawElement>) -> Seq<(Seq<char>, Seq<char>, Seq<char>, Seq<char>, bool, Option<bool>)>
    decreases raws.len(),
{
    if raws.len() == 0 {
        Seq::empty()
    } else {
        kept_elements(raws.drop_last()) + (if parse_ref_spec(text_or_empty(raws.last().element_ref)) is Some {
            seq![element_from_raw(raws.last())]
        } else {
            Seq::empty()
        })
    }
}

fn text_of(o: &Option<String>) -> (r: String)
    ensures
        r@ == text_or_empty(*o),
{
    match o {
        Some(s) => s.clone(),
        None => String::new(),
    }
}

/// Turns the walker's report into a snapshot: the first
/// `MAX_SNAPSHOT_ELEMENTS` raw elements are considered, those without a
/// well-formed ref are dropped, and the snapshot is truncated when the
/// walker says so or reported more elements than that. A report without an
/// elements array is refused.
pub fn parse_snapshot(generation: u64, interactive_only: bool, raw: &RawSnapshot) -> (r: Result<PageSnapshot, String>)
    ensures
        raw.elements is None ==> (r matches Err(msg) && msg@ == "snapshot result is missing its elements array"@),
        raw.elements is Some ==> (r matches Ok(snap)
            && snap.generation == generation
            && snap.url@ == text_or_empty(raw.url)
            && snap.title@ == text_or_empty(raw.title)
            && snap.interactive_only == interactive_only
            && snap.truncated == ((match raw.truncated { Some(b) => b, None => false })
                || raw.elements->0@.len() > MAX_SNAPSHOT_ELEMENTS)
            && snap.elements@.map_values(|e: SnapshotElement| element_view(e))
                == kept_elements(raw.elements->0@.take(
                    if raw.elements->0@.len() > MAX_SNAPSHOT_ELEMENTS { MAX_SNAPSHOT_ELEMENTS as int } else { raw.elements->0@.len() as int }))),
{
    let raws = match &raw.elements {
        Some(v) => v,
        None => {
            return Err("snapshot result is missing its elements array".to_owned());
        },
    };
    let limit: usize = if raws.len() > MAX_SNAPSHOT_ELEMENTS { MAX_SNAPSHOT_ELEMENTS } else { raws.len() };
    let mut elements: Vec<SnapshotElement> = Vec::new();
    let mut i: usize = 0;
    while i < limit
        invariant
            limit <= raws@.len(),
            i <= limit,
            elements@.map_values(|e: SnapshotElement| element_view(e)) == kept_elements(raws@.take(i as int)),
        decreases limit - i,
    {
        let ghost before = elements@.map_values(|e: SnapshotElement| element_view(e));
        let item = &raws[i];
        assert(raws@.take(i + 1).drop_last() =~= raws@.take(i as int));
        assert(raws@.take(i + 1).last() == raws@[i as int]);
        let element_ref = text_of(&item.element_ref);
        if parse_ref(element_ref.as_str()).is_some() {
            let role = text_of(&item.role);
            let name = text_of(&item.name);
            let value = text_of(&item.value);
            let e = SnapshotElement {
                element_ref,
                role: clamp_field(role.as_str()),
                name: clamp_field(name.as_str()),
                value: clamp_field(value.as_str()),
                enabled: match item.enabled { Some(b) => b, None => true },
                checked: item.checked,
            };
            elements.push(e);
            assert(elements@.map_values(|e: SnapshotElement| element_view(e)) =~= before + seq![element_from_raw(raws@[i as int])]);
        } else {
            assert(elements@.map_values(|e: SnapshotElement| element_view(e)) =~= before + Seq::<(Seq<char>, Seq<char>, Seq<char>, Seq<char>, bool, Option<bool>)>::empty());
        }
        i = i + 1;
    }
    let said_truncated = match raw.truncated { Some(b) => b, None => false };
    Ok(PageSnapshot {
        generation,
        url: text_of(&raw.url),
        title: text_of(&raw.title),
        interactive_only,
        truncated: said_truncated || raws.len() > MAX_SNAPSHOT_ELEMENTS,
        elements,
    })
}

} // verus!
