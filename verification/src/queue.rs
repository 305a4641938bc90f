//! The desktop Inbox queue file: migrating records written before the
//! Workflows-to-Automations rename, and merging a desktop snapshot with what
//! remote surfaces changed meanwhile.
use vstd::prelude::*;

use crate::text::str_eq;

verus! {

pub open spec fn opt_view(o: Option<String>) -> Option<Seq<char>> {
    match o {
        Some(s) => Some(s@),
        None => None,
    }
}

pub open spec fn ids_view(v: Seq<Option<String>>) -> Seq<Option<Seq<char>>> {
    v.map_values(|o: Option<String>| opt_view(o))
}

/// The legacy key renamed at position `i`, and its canonical name.
pub open spec fn legacy_key_pair_spec(i: int) -> (Seq<char>, Seq<char>) {
    if i == 0 {
        ("workflow_id"@, "automation_id"@)
    } else if i == 1 {
        ("workflow_run_id"@, "automation_run_id"@)
    } else if i == 2 {
        ("workflow_name"@, "automation_name"@)
    } else {
        ("workflow_approval"@, "automation_approval"@)
    }
}

/// How many legacy keys are renamed.
pub const LEGACY_KEY_COUNT: usize = 4;

/// The legacy key renamed at position `i`, and its canonical name.
pub fn legacy_key_pair(i: usize) -> (r: (&'static str, &'static str))
    requires
        i < LEGACY_KEY_COUNT,
    ensures
        (r.0@, r.1@) == legacy_key_pair_spec(i as int),
{
    if i == 0 {
        ("workflow_id", "automation_id")
    } else if i == 1 {
        ("workflow_run_id", "automation_run_id")
    } else if i == 2 {
        ("workflow_name", "automation_name")
    } else {
        ("workflow_approval", "automation_approval")
    }
}

/// What the migration reads of a queue record.
#[derive(Debug, Clone, PartialEq, Eq)]
pub struct LegacyItemShape {
    /// Whether the record is a JSON object at all.
    pub is_object: bool,
    /// `type`, when it is a string.
    pub type_value: Option<String>,
    pub has_status: bool,
    /// For each renamed key, in order: whether the legacy key is present.
    pub legacy_present: Vec<bool>,
    /// For each renamed key, in order: whether the canonical key is present.
    pub canonical_present: Vec<bool>,
}

/// What the migration does to one record.
#[derive(Debug, Clone, PartialEq, Eq)]
pub struct LegacyItemPlan {
    /// Set `type` to `automation_completed`.
    pub rename_type: bool,
    /// Add `status: "failed"`.
    pub add_failed_status: bool,
    /// For each renamed key: remove the legacy key.
    pub remove_legacy: Vec<bool>,
    /// For each renamed key: copy the legacy value to the canonical key first.
    pub copy_to_canonical: Vec<bool>,
    /// Whether anything changed.
    pub migrated: bool,
}

/// What the migration does to a record of this shape.
pub open spec fn legacy_plan_spec(shape: LegacyItemShape, r: LegacyItemPlan) -> bool {
    &&& r.remove_legacy@.len() == LEGACY_KEY_COUNT
    &&& r.copy_to_canonical@.len() == LEGACY_KEY_COUNT
    &&& !shape.is_object ==> !r.rename_type && !r.add_failed_status && !r.migrated
        && forall|i: int| 0 <= i < LEGACY_KEY_COUNT ==> !(#[trigger] r.remove_legacy@[i]) && !r.copy_to_canonical@[i]
    &&& shape.is_object ==> {
        &&& r.rename_type == (opt_view(shape.type_value) == Some("workflow_completed"@)
            || opt_view(shape.type_value) == Some("workflow_failed"@))
        &&& r.add_failed_status == (opt_view(shape.type_value) == Some("workflow_failed"@) && !shape.has_status)
        &&& forall|i: int| 0 <= i < LEGACY_KEY_COUNT ==> #[trigger] r.remove_legacy@[i] == shape.legacy_present@[i]
            && r.copy_to_canonical@[i] == (shape.legacy_present@[i] && !shape.canonical_present@[i])
        &&& r.migrated == (r.rename_type || exists|i: int| 0 <= i < LEGACY_KEY_COUNT && shape.legacy_present@[i])
    }
}

/// Plans the migration of one record: legacy completion and failure types
/// become `automation_completed` (a failure also records its status unless it
/// has one), and each legacy key is removed after its value is copied to the
/// canonical key, unless that key already holds one.
pub fn normalize_legacy_item(shape: &LegacyItemShape) -> (r: LegacyItemPlan)
    requires
        shape.legacy_present@.len() == LEGACY_KEY_COUNT,
        shape.canonical_present@.len() == LEGACY_KEY_COUNT,
    ensures
        legacy_plan_spec(*shape, r),
{
    let mut remove_legacy: Vec<bool> = Vec::new();
    let mut copy_to_canonical: Vec<bool> = Vec::new();
    let mut any_key = false;
    let mut i: usize = 0;
    while i < LEGACY_KEY_COUNT
        invariant
            i <= LEGACY_KEY_COUNT,
            shape.legacy_present@.len() == LEGACY_KEY_COUNT,
            shape.canonical_present@.len() == LEGACY_KEY_COUNT,
            remove_legacy@.len() == i,
            copy_to_canonical@.len() == i,
            remove_legacy@ == Seq::new(i as nat, |j: int| shape.is_object && shape.legacy_present@[j]),
            copy_to_canonical@ == Seq::new(i as nat, |j: int| shape.is_object && shape.legacy_present@[j] && !shape.canonical_present@[j]),
            any_key == (shape.is_object && exists|j: int| 0 <= j < i && shape.legacy_present@[j]),
        decreases LEGACY_KEY_COUNT - i,
    {
        let present = shape.is_object && shape.legacy_present[i];
        let copy = present && !shape.canonical_present[i];
        remove_legacy.push(present);
        copy_to_canonical.push(copy);
        assert(remove_legacy@ =~= Seq::new((i + 1) as nat, |j: int| shape.is_object && shape.legacy_present@[j]));
        assert(copy_to_canonical@ =~= Seq::new((i + 1) as nat, |j: int| shape.is_object && shape.legacy_present@[j] && !shape.canonical_present@[j]));
        if present {
            any_key = true;
        }
        i = i + 1;
    }
    let completed = match &shape.type_value {
        Some(t) => str_eq(t.as_str(), "workflow_completed"),
        None => false,
    };
    let failed = match &shape.type_value {
        Some(t) => str_eq(t.as_str(), "workflow_failed"),
        None => false,
    };
    let rename_type = shape.is_object && (completed || failed);
    LegacyItemPlan {
        rename_type,
        add_failed_status: shape.is_object && failed && !shape.has_status,
        remove_legacy,
        copy_to_canonical,
        migrated: rename_type || any_key,
    }
}

/// Plans the migration of every record; the flag says whether any changed.
pub fn normalize_legacy_items(shapes: &[LegacyItemShape]) -> (r: (Vec<LegacyItemPlan>, bool))
    requires
        forall|i: int| 0 <= i < shapes@.len() ==> (#[trigger] shapes@[i]).legacy_present@.len() == LEGACY_KEY_COUNT
            && shapes@[i].canonical_present@.len() == LEGACY_KEY_COUNT,
    ensures
        r.0@.len() == shapes@.len(),
        forall|i: int| 0 <= i < shapes@.len() ==> legacy_plan_spec(#[trigger] shapes@[i], r.0@[i]),
        r.1 == exists|i: int| 0 <= i < shapes@.len() && (#[trigger] r.0@[i]).migrated,
{
    let mut plans: Vec<LegacyItemPlan> = Vec::new();
    let mut migrated = false;
    let mut i: usize = 0;
    while i < shapes.len()
        invariant
            i <= shapes@.len(),
            plans@.len() == i,
            forall|k: int| 0 <= k < shapes@.len() ==> (#[trigger] shapes@[k]).legacy_present@.len() == LEGACY_KEY_COUNT
                && shapes@[k].canonical_present@.len() == LEGACY_KEY_COUNT,
            forall|k: int| 0 <= k < i ==> legacy_plan_spec(#[trigger] shapes@[k], plans@[k]),
            migrated == exists|k: int| 0 <= k < i && (#[trigger] plans@[k]).migrated,
        decreases shapes@.len() - i,
    {
        let plan = normalize_legacy_item(&shapes[i]);
        if plan.migrated {
            migrated = true;
        }
        let ghost before = plans@;
        plans.push(plan);
        assert forall|k: int| 0 <= k < i + 1 implies legacy_plan_spec(#[trigger] shapes@[k], plans@[k]) by {
            if k < i {
                assert(plans@[k] == before[k]);
            }
        }
        assert(migrated == exists|k: int| 0 <= k < i + 1 && (#[trigger] plans@[k]).migrated) by {
            if migrated {
                if !plans@[i as int].migrated {
                    let k = choose|k: int| 0 <= k < i && (#[trigger] before[k]).migrated;
                    assert(plans@[k] == before[k]);
                }
            } else {
                assert forall|k: int| 0 <= k < i + 1 implies !(#[trigger] plans@[k]).migrated by {
                    if k < i {
                        assert(plans@[k] == before[k]);
                    }
                }
            }
        }
        i = i + 1;
    }
    (plans, migrated)
}

/// `after` is what a record of shape `before` looks like once `plan` is
/// applied to it.
pub open spec fn describes_migrated(before: LegacyItemShape, plan: LegacyItemPlan, after: LegacyItemShape) -> bool {
    &&& after.is_object == before.is_object
    &&& after.legacy_present@.len() == LEGACY_KEY_COUNT
    &&& after.canonical_present@.len() == LEGACY_KEY_COUNT
    &&& !before.is_object ==> after == before
    &&& before.is_object ==> {
        &&& opt_view(after.type_value) == if plan.rename_type { Some("automation_completed"@) } else { opt_view(before.type_value) }
        &&& after.has_status == (before.has_status || plan.add_failed_status)
        &&& forall|i: int| 0 <= i < LEGACY_KEY_COUNT ==> !(#[trigger] after.legacy_present@[i])
            && after.canonical_present@[i] == (before.canonical_present@[i] || before.legacy_present@[i])
    }
}

/// Migrating is idempotent: a record that has been migrated once plans no
/// further change.
pub proof fn law_migration_is_idempotent(before: LegacyItemShape, plan: LegacyItemPlan, after: LegacyItemShape, again: LegacyItemPlan)
    requires
        before.legacy_present@.len() == LEGACY_KEY_COUNT,
        before.canonical_present@.len() == LEGACY_KEY_COUNT,
        legacy_plan_spec(before, plan),
        describes_migrated(before, plan, after),
        legacy_plan_spec(after, again),
    ensures
        !again.migrated,
{
    if after.is_object {
        reveal_strlit("automation_completed");
        reveal_strlit("workflow_completed");
        reveal_strlit("workflow_failed");
        assert("automation_completed"@ != "workflow_completed"@ && "automation_completed"@ != "workflow_failed"@) by {
            assert("automation_completed"@[0] != "workflow_completed"@[0]);
            assert("automation_completed"@[0] != "workflow_failed"@[0]);
        }
        assert(!again.rename_type);
        assert forall|i: int| 0 <= i < LEGACY_KEY_COUNT implies !after.legacy_present@[i] by {
            assert(!after.legacy_present@[i]);
        }
    }
}

// ---------------------------------------------------------------------------
// Merging a desktop snapshot

/// One item of a merged queue, by where it comes from.
#[derive(Debug, Clone, Copy, PartialEq, Eq, Structural)]
pub enum MergeStep {
    /// The persisted item at this index, unchanged.
    Latest(usize),
    /// The desktop's version of an item both sides know, keeping the persisted
    /// item's read acknowledgement and provider-choice markers.
    Patched { incoming: usize, latest: usize },
    /// A desktop item the persisted queue never had.
    Incoming(usize),
}

pub open spec fn has_id(ids: Seq<Option<Seq<char>>>, x: Seq<char>) -> bool {
    exists|j: int| 0 <= j < ids.len() && ids[j] == Some(x)
}

/// The last incoming item with the id: the one a map keyed by id keeps.
pub open spec fn last_with_id(ids: Seq<Option<Seq<char>>>, x: Seq<char>) -> Option<int>
    decreases ids.len(),
{
    if ids.len() == 0 {
        None
    } else if ids.last() == Some(x) {
        Some(ids.len() - 1)
    } else {
        last_with_id(ids.drop_last(), x)
    }
}

/// The merge's first part, over the first `n` persisted items.
pub open spec fn merge_latest(base: Seq<Option<Seq<char>>>, incoming: Seq<Option<Seq<char>>>, latest: Seq<Option<Seq<char>>>, n: int) -> Seq<MergeStep>
    decreases n,
{
    if n <= 0 {
        Seq::empty()
    } else {
        let prev = merge_latest(base, incoming, latest, n - 1);
        let li = n - 1;
        match latest[li] {
            None => prev.push(MergeStep::Latest(li as usize)),
            Some(x) => if !has_id(base, x) {
                prev.push(MergeStep::Latest(li as usize))
            } else {
                match last_with_id(incoming, x) {
                    Some(ii) => prev.push(MergeStep::Patched { incoming: ii as usize, latest: li as usize }),
                    None => prev,
                }
            },
        }
    }
}

/// The merge's second part, over the first `n` desktop items.
pub open spec fn merge_incoming(base: Seq<Option<Seq<char>>>, incoming: Seq<Option<Seq<char>>>, latest: Seq<Option<Seq<char>>>, n: int) -> Seq<MergeStep>
    decreases n,
{
    if n <= 0 {
        Seq::empty()
    } else {
        let prev = merge_incoming(base, incoming, latest, n - 1);
        let ii = n - 1;
        match incoming[ii] {
            None => prev.push(MergeStep::Incoming(ii as usize)),
            Some(x) => if !has_id(base, x) && !has_id(latest, x) { prev.push(MergeStep::Incoming(ii as usize)) } else { prev },
        }
    }
}

/// The merged queue: without the desktop's load snapshot the persisted queue
/// stays authoritative; with it, desktop removals and remote additions both
/// survive.
pub open spec fn merge_spec(base: Option<Seq<Option<Seq<char>>>>, incoming: Seq<Option<Seq<char>>>, latest: Seq<Option<Seq<char>>>) -> Seq<MergeStep> {
    match base {
        None => Seq::new(latest.len(), |i: int| MergeStep::Latest(i as usize)),
        Some(b) => merge_latest(b, incoming, latest, latest.len() as int) + merge_incoming(b, incoming, latest, incoming.len() as int),
    }
}

fn contains_id(ids: &[Option<String>], x: &str) -> (r: bool)
    ensures
        r == has_id(ids_view(ids@), x@),
{
    let ghost v = ids_view(ids@);
    let mut j: usize = 0;
    while j < ids.len()
        invariant
            j <= ids@.len(),
            v == ids_view(ids@),
            forall|k: int| 0 <= k < j ==> v[k] != Some(x@),
        decreases ids@.len() - j,
    {
        let hit = match &ids[j] {
            Some(s) => str_eq(s.as_str(), x),
            None => false,
        };
        assert(v[j as int] == opt_view(ids@[j as int]));
        if hit {
            return true;
        }
        j = j + 1;
    }
    false
}

fn last_index(ids: &[Option<String>], x: &str) -> (r: Option<usize>)
    ensures
        match r {
            Some(i) => last_with_id(ids_view(ids@), x@) == Some(i as int),
            None => last_with_id(ids_view(ids@), x@) is None,
        },
{
    let ghost v = ids_view(ids@);
    let mut k: usize = ids.len();
    assert(v.take(k as int) =~= v);
    while k > 0
        invariant
            k <= ids@.len(),
            v == ids_view(ids@),
            last_with_id(v, x@) == last_with_id(v.take(k as int), x@),
        decreases k,
    {
        let hit = match &ids[k - 1] {
            Some(s) => str_eq(s.as_str(), x),
            None => false,
        };
        assert(v.take(k as int).last() == opt_view(ids@[k - 1]));
        if hit {
            return Some(k - 1);
        }
        assert(v.take(k as int).drop_last() =~= v.take(k - 1));
        k = k - 1;
    }
    None
}

/// Plans the merge of a desktop snapshot (`incoming`, taken over the load
/// snapshot `base`) with the latest persisted queue, by item ids.
pub fn merge_desktop_snapshot(base: Option<&[Option<String>]>, incoming: &[Option<String>], latest: &[Option<String>]) -> (r: Vec<MergeStep>)
    ensures
        r@ == merge_spec(match base { Some(b) => Some(ids_view(b@)), None => None }, ids_view(incoming@), ids_view(latest@)),
{
    let b = match base {
        None => {
            let mut out: Vec<MergeStep> = Vec::new();
            let mut i: usize = 0;
            while i < latest.len()
                invariant
                    i <= latest@.len(),
                    out@ =~= Seq::new(i as nat, |k: int| MergeStep::Latest(k as usize)),
                decreases latest@.len() - i,
            {
                out.push(MergeStep::Latest(i));
                i = i + 1;
            }
            return out;
        },
        Some(b) => b,
    };
    let ghost bv = ids_view(b@);
    let ghost iv = ids_view(incoming@);
    let ghost lv = ids_view(latest@);
    let mut out: Vec<MergeStep> = Vec::new();
    let mut li: usize = 0;
    while li < latest.len()
        invariant
            li <= latest@.len(),
            bv == ids_view(b@),
            iv == ids_view(incoming@),
            lv == ids_view(latest@),
            out@ == merge_latest(bv, iv, lv, li as int),
        decreases latest@.len() - li,
    {
        assert(lv[li as int] == opt_view(latest@[li as int]));
        match &latest[li] {
            None => out.push(MergeStep::Latest(li)),
            Some(x) => {
                if !contains_id(b, x.as_str()) {
                    out.push(MergeStep::Latest(li));
                } else {
                    match last_index(incoming, x.as_str()) {
                        Some(ii) => out.push(MergeStep::Patched { incoming: ii, latest: li }),
                        None => {},
                    }
                }
            },
        }
        li = li + 1;
    }
    let ghost first = out@;
    let mut tail: Vec<MergeStep> = Vec::new();
    let mut ii: usize = 0;
    while ii < incoming.len()
        invariant
            ii <= incoming@.len(),
            bv == ids_view(b@),
            iv == ids_view(incoming@),
            lv == ids_view(latest@),
            tail@ == merge_incoming(bv, iv, lv, ii as int),
        decreases incoming@.len() - ii,
    {
        assert(iv[ii as int] == opt_view(incoming@[ii as int]));
        match &incoming[ii] {
            None => tail.push(MergeStep::Incoming(ii)),
            Some(x) => {
                if !contains_id(b, x.as_str()) && !contains_id(latest, x.as_str()) {
                    tail.push(MergeStep::Incoming(ii));
                }
            },
        }
        ii = ii + 1;
    }
    out.append(&mut tail);
    out
}

proof fn lemma_merge_latest_keeps(base: Seq<Option<Seq<char>>>, incoming: Seq<Option<Seq<char>>>, latest: Seq<Option<Seq<char>>>, n: int, li: int)
    requires
        0 <= li < n <= latest.len(),
        latest[li] matches Some(x) && !has_id(base, x),
    ensures
        merge_latest(base, incoming, latest, n).contains(MergeStep::Latest(li as usize)),
    decreases n,
{
    let prev = merge_latest(base, incoming, latest, n - 1);
    let r = merge_latest(base, incoming, latest, n);
    if li == n - 1 {
        assert(r.last() == MergeStep::Latest(li as usize));
    } else {
        lemma_merge_latest_keeps(base, incoming, latest, n - 1, li);
        let k = choose|k: int| 0 <= k < prev.len() && prev[k] == MergeStep::Latest(li as usize);
        assert(r[k] == prev[k]);
    }
}

proof fn lemma_merge_latest_drops(base: Seq<Option<Seq<char>>>, incoming: Seq<Option<Seq<char>>>, latest: Seq<Option<Seq<char>>>, n: int, li: int)
    requires
        0 <= li < latest.len(),
        n <= latest.len(),
        latest.len() <= usize::MAX,
        latest[li] matches Some(x) && has_id(base, x) && last_with_id(incoming, x) is None,
    ensures
        forall|k: int| 0 <= k < merge_latest(base, incoming, latest, n).len() ==>
            #[trigger] merge_latest(base, incoming, latest, n)[k] != MergeStep::Latest(li as usize),
    decreases n,
{
    if n > 0 {
        lemma_merge_latest_drops(base, incoming, latest, n - 1, li);
        let prev = merge_latest(base, incoming, latest, n - 1);
        let r = merge_latest(base, incoming, latest, n);
        assert forall|k: int| 0 <= k < r.len() implies #[trigger] r[k] != MergeStep::Latest(li as usize) by {
            if k < prev.len() {
                assert(r[k] == prev[k]);
            }
        }
    }
}

/// With the desktop's load snapshot, a persisted item the desktop never saw
/// (added remotely) survives the merge, and an item the desktop removed since
/// it loaded does not come back from the persisted queue.
pub proof fn law_merge_keeps_remote_additions_and_desktop_removals(
    base: Seq<Option<Seq<char>>>,
    incoming: Seq<Option<Seq<char>>>,
    latest: Seq<Option<Seq<char>>>,
    li: int,
)
    requires
        0 <= li < latest.len(),
        latest.len() <= usize::MAX,
        latest[li] is Some,
    ensures
        !has_id(base, latest[li]->0) ==> merge_spec(Some(base), incoming, latest).contains(MergeStep::Latest(li as usize)),
        has_id(base, latest[li]->0) && last_with_id(incoming, latest[li]->0) is None ==>
            !merge_spec(Some(base), incoming, latest).contains(MergeStep::Latest(li as usize)),
{
    let first = merge_latest(base, incoming, latest, latest.len() as int);
    let second = merge_incoming(base, incoming, latest, incoming.len() as int);
    let m = merge_spec(Some(base), incoming, latest);
    assert(m == first + second);
    if !has_id(base, latest[li]->0) {
        lemma_merge_latest_keeps(base, incoming, latest, latest.len() as int, li);
        let k = choose|k: int| 0 <= k < first.len() && first[k] == MergeStep::Latest(li as usize);
        assert(m[k] == first[k]);
    }
    if has_id(base, latest[li]->0) && last_with_id(incoming, latest[li]->0) is None {
        lemma_merge_latest_drops(base, incoming, latest, latest.len() as int, li);
        lemma_merge_incoming_only_incoming(base, incoming, latest, incoming.len() as int);
        if m.contains(MergeStep::Latest(li as usize)) {
            let k = choose|k: int| 0 <= k < m.len() && m[k] == MergeStep::Latest(li as usize);
            if k < first.len() {
                assert(m[k] == first[k]);
            } else {
                assert(m[k] == second[k - first.len()]);
            }
        }
    }
}

proof fn lemma_merge_incoming_only_incoming(base: Seq<Option<Seq<char>>>, incoming: Seq<Option<Seq<char>>>, latest: Seq<Option<Seq<char>>>, n: int)
    ensures
        forall|k: int| 0 <= k < merge_incoming(base, incoming, latest, n).len() ==>
            (#[trigger] merge_incoming(base, incoming, latest, n)[k]) is Incoming,
    decreases n,
{
    if n > 0 {
        lemma_merge_incoming_only_incoming(base, incoming, latest, n - 1);
        let prev = merge_incoming(base, incoming, latest, n - 1);
        let r = merge_incoming(base, incoming, latest, n);
        assert forall|k: int| 0 <= k < r.len() implies (#[trigger] r[k]) is Incoming by {
            if k < prev.len() {
                assert(r[k] == prev[k]);
            }
        }
    }
}

} // verus!
