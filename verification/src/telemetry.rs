//! The telemetry retention policy: which backup files belong to the rotation,
//! which of them are pruned, and what a due retention pass does first.
use vstd::prelude::*;

use crate::text::{
    lemma_sort_names, sort_names, sorted_strings,
    chars_of, ends_with, ends_with_exec, lex_lt, push_signed_decimal, push_str_chars, signed_decimal_chars,
    starts_with, starts_with_exec, str_eq, str_lt, into_string, strings_view,
};

verus! {

/// Raw provider facts are kept this many days.
pub const TELEMETRY_RAW_RETENTION_DAYS: u32 = 90;
pub const AUTOMATIC_BACKUP_PREFIX: &'static str = "state.db.telemetry-";
pub const AUTOMATIC_BACKUP_SUFFIX: &'static str = ".backup";
pub const AUTOMATIC_BACKUP_TEMP_SUFFIX: &'static str = ".tmp";
pub const PENDING_BACKUP_NAME: &'static str = "state.db.telemetry-pending.backup";
/// Rotated backups kept.
pub const AUTOMATIC_BACKUP_COUNT: usize = 2;
/// Seconds before the first pass is considered.
pub const INITIAL_DELAY_SECS: u64 = 60;
/// Seconds before a failed pass is retried.
pub const RETRY_DELAY_SECS: u64 = 900;
/// Seconds before the next pass after a successful one.
pub const SUCCESS_DELAY_SECS: u64 = 86400;

/// A rotated backup: the rotation's prefix and suffix, and not the pending file.
pub open spec fn automatic_backup_spec(name: Seq<char>) -> bool {
    starts_with(name, AUTOMATIC_BACKUP_PREFIX@) && ends_with(name, AUTOMATIC_BACKUP_SUFFIX@)
        && name != PENDING_BACKUP_NAME@
}

/// A backup left half-written: the rotation's prefix and `.backup.tmp`.
pub open spec fn automatic_backup_temp_spec(name: Seq<char>) -> bool {
    starts_with(name, AUTOMATIC_BACKUP_PREFIX@) && ends_with(name, AUTOMATIC_BACKUP_SUFFIX@ + AUTOMATIC_BACKUP_TEMP_SUFFIX@)
}

/// Whether a file name belongs to the backup rotation.
pub fn is_automatic_backup_name(name: &str) -> (r: bool)
    ensures
        r == automatic_backup_spec(name@),
{
    let cs = chars_of(name);
    let prefix = chars_of(AUTOMATIC_BACKUP_PREFIX);
    let suffix = chars_of(AUTOMATIC_BACKUP_SUFFIX);
    starts_with_exec(cs.as_slice(), prefix.as_slice()) && ends_with_exec(cs.as_slice(), suffix.as_slice())
        && !str_eq(name, PENDING_BACKUP_NAME)
}

/// Whether a file name is a rotated backup that was never completed.
pub fn is_automatic_backup_temp_name(name: &str) -> (r: bool)
    ensures
        r == automatic_backup_temp_spec(name@),
{
    let cs = chars_of(name);
    let prefix = chars_of(AUTOMATIC_BACKUP_PREFIX);
    let mut suffix = chars_of(AUTOMATIC_BACKUP_SUFFIX);
    push_str_chars(&mut suffix, AUTOMATIC_BACKUP_TEMP_SUFFIX);
    starts_with_exec(cs.as_slice(), prefix.as_slice()) && ends_with_exec(cs.as_slice(), suffix.as_slice())
}

/// `state.db.telemetry-<millis>-<pid>.backup`.
pub open spec fn backup_name_spec(millis: int, pid: nat) -> Seq<char> {
    AUTOMATIC_BACKUP_PREFIX@ + signed_decimal_chars(millis) + "-"@ + crate::text::decimal_chars(pid) + AUTOMATIC_BACKUP_SUFFIX@
}

/// The name of a new rotated backup taken at `millis` by process `pid`.
pub fn new_backup_name(millis: i64, pid: u32) -> (r: String)
    ensures
        r@ == backup_name_spec(millis as int, pid as nat),
{
    let mut out: Vec<char> = Vec::new();
    push_str_chars(&mut out, AUTOMATIC_BACKUP_PREFIX);
    push_signed_decimal(&mut out, millis);
    push_str_chars(&mut out, "-");
    crate::text::push_decimal(&mut out, pid as u64);
    push_str_chars(&mut out, AUTOMATIC_BACKUP_SUFFIX);
    into_string(out)
}

/// The rotated backups among `names`, in the order given.
pub open spec fn automatic_backups(names: Seq<Seq<char>>) -> Seq<Seq<char>>
    decreases names.len(),
{
    if names.len() == 0 {
        Seq::empty()
    } else {
        let p = automatic_backups(names.drop_last());
        if automatic_backup_spec(names.last()) { p.push(names.last()) } else { p }
    }
}

/// What pruning removes: the oldest rotated backups, all but the newest two.
pub open spec fn prune_spec(names: Seq<Seq<char>>) -> Seq<Seq<char>> {
    let sorted = sort_names(automatic_backups(names));
    if sorted.len() > AUTOMATIC_BACKUP_COUNT { sorted.take(sorted.len() - AUTOMATIC_BACKUP_COUNT) } else { Seq::empty() }
}

/// The file names pruning removes from a backup directory listing.
pub fn backups_to_prune(names: &[String]) -> (r: Vec<String>)
    ensures
        strings_view(r@) == prune_spec(strings_view(names@)),
{
    let ghost v = strings_view(names@);
    let mut backups: Vec<String> = Vec::new();
    let mut i: usize = 0;
    while i < names.len()
        invariant
            i <= names@.len(),
            v == strings_view(names@),
            strings_view(backups@) == automatic_backups(v.take(i as int)),
        decreases names@.len() - i,
    {
        let ghost before = backups@;
        if is_automatic_backup_name(names[i].as_str()) {
            backups.push(names[i].clone());
            assert(strings_view(backups@) =~= strings_view(before).push(v[i as int]));
        }
        assert(v.take(i + 1).drop_last() =~= v.take(i as int));
        i = i + 1;
    }
    assert(v.take(v.len() as int) =~= v);
    let sorted = sorted_strings(backups);
    let mut out: Vec<String> = Vec::new();
    if sorted.len() > AUTOMATIC_BACKUP_COUNT {
        let n = sorted.len() - AUTOMATIC_BACKUP_COUNT;
        let mut k: usize = 0;
        while k < n
            invariant
                k <= n,
                n == sorted@.len() - AUTOMATIC_BACKUP_COUNT,
                strings_view(out@) == strings_view(sorted@).take(k as int),
            decreases n - k,
        {
            let ghost before = out@;
            let c = sorted[k].clone();
            out.push(c);
            assert(strings_view(out@) =~= strings_view(before).push(sorted@[k as int]@));
            assert(strings_view(out@) =~= strings_view(sorted@).take(k + 1));
            k = k + 1;
        }
    } else {
        assert(strings_view(out@) =~= Seq::<Seq<char>>::empty());
    }
    out
}

/// The rotated backups of a listing, newest first: the order in which a
/// verified pre-preparation baseline is looked for.
pub fn baseline_candidates(names: &[String]) -> (r: Vec<String>)
    ensures
        strings_view(r@) == sort_names(automatic_backups(strings_view(names@))).reverse(),
{
    let ghost v = strings_view(names@);
    let mut backups: Vec<String> = Vec::new();
    let mut i: usize = 0;
    while i < names.len()
        invariant
            i <= names@.len(),
            v == strings_view(names@),
            strings_view(backups@) == automatic_backups(v.take(i as int)),
        decreases names@.len() - i,
    {
        let ghost before = backups@;
        if is_automatic_backup_name(names[i].as_str()) {
            backups.push(names[i].clone());
            assert(strings_view(backups@) =~= strings_view(before).push(v[i as int]));
        }
        assert(v.take(i + 1).drop_last() =~= v.take(i as int));
        i = i + 1;
    }
    assert(v.take(v.len() as int) =~= v);
    let sorted = sorted_strings(backups);
    let ghost sv = strings_view(sorted@);
    let mut out: Vec<String> = Vec::new();
    let mut k: usize = sorted.len();
    while k > 0
        invariant
            k <= sorted@.len(),
            sv == strings_view(sorted@),
            strings_view(out@) == sv.skip(k as int).reverse(),
        decreases k,
    {
        let ghost before = out@;
        let c = sorted[k - 1].clone();
        out.push(c);
        assert(strings_view(out@) =~= strings_view(before).push(sv[k - 1]));
        assert(sv.skip(k - 1).reverse() =~= sv.skip(k as int).reverse().push(sv[k - 1]));
        assert(strings_view(out@) =~= sv.skip(k - 1).reverse());
        k = k - 1;
    }
    assert(sv.skip(0) =~= sv);
    out
}

/// What a due retention pass does with the pending backup before the core
/// maintenance runs.
#[derive(Debug, Clone, Copy, PartialEq, Eq, Structural)]
pub enum RetentionStep {
    /// No retention phase is active and nothing expired: promote a leftover
    /// pending backup and prune the rotation, nothing more.
    Idle,
    /// The backup's association is durable: the pending backup must exist and verify.
    RequireVerifiedPending,
    /// Deletion was prepared before backups were associated: adopt the newest
    /// verified baseline from before the preparation.
    AdoptLegacyBaseline,
    /// No deletion has begun: take a fresh pending backup.
    RefreshPending,
}

pub open spec fn retention_step_spec(retention_prepared: bool, backup_pending: bool, backup_prepared: bool, has_expired: bool) -> RetentionStep {
    if !retention_prepared && !backup_pending && !backup_prepared && !has_expired {
        RetentionStep::Idle
    } else if backup_prepared {
        RetentionStep::RequireVerifiedPending
    } else if retention_prepared {
        RetentionStep::AdoptLegacyBaseline
    } else {
        RetentionStep::RefreshPending
    }
}

/// Chooses the step from the durable markers and whether any raw fact expired.
pub fn retention_step(retention_prepared: bool, backup_pending: bool, backup_prepared: bool, has_expired: bool) -> (r: RetentionStep)
    ensures
        r == retention_step_spec(retention_prepared, backup_pending, backup_prepared, has_expired),
{
    if !retention_prepared && !backup_pending && !backup_prepared && !has_expired {
        RetentionStep::Idle
    } else if backup_prepared {
        RetentionStep::RequireVerifiedPending
    } else if retention_prepared {
        RetentionStep::AdoptLegacyBaseline
    } else {
        RetentionStep::RefreshPending
    }
}

/// Seconds until the next pass: a day after a pass that ran or had nothing to
/// do, a quarter hour after one that failed.
pub fn next_pass_delay_secs(pass_succeeded: bool) -> (r: u64)
    ensures
        r == if pass_succeeded { SUCCESS_DELAY_SECS } else { RETRY_DELAY_SECS },
{
    if pass_succeeded { SUCCESS_DELAY_SECS } else { RETRY_DELAY_SECS }
}

/// Once a retention phase is durable, a pass never takes a fresh backup: a
/// baseline from after deletion began could not restore what was deleted.
pub proof fn law_prepared_phase_never_refreshes_the_baseline(
    retention_prepared: bool,
    backup_pending: bool,
    backup_prepared: bool,
    has_expired: bool,
)
    requires
        retention_prepared || backup_prepared,
    ensures
        retention_step_spec(retention_prepared, backup_pending, backup_prepared, has_expired) != RetentionStep::RefreshPending,
        retention_step_spec(retention_prepared, backup_pending, backup_prepared, has_expired) != RetentionStep::Idle,
{
}

/// Pruning leaves the two newest rotated backups: it removes all the others,
/// and nothing it removes sorts after a backup it keeps.
pub proof fn law_pruning_keeps_the_two_newest(names: Seq<Seq<char>>)
    ensures
        ({
            let backups = sort_names(automatic_backups(names));
            let removed = prune_spec(names);
            &&& removed.len() == if backups.len() > AUTOMATIC_BACKUP_COUNT { backups.len() - AUTOMATIC_BACKUP_COUNT } else { 0 }
            &&& forall|a: int, k: int| 0 <= a < removed.len() && removed.len() <= k < backups.len()
                ==> !lex_lt(#[trigger] backups[k], #[trigger] removed[a])
        }),
{
    let backups = sort_names(automatic_backups(names));
    lemma_sort_names(automatic_backups(names));
    let removed = prune_spec(names);
    assert forall|a: int, k: int| 0 <= a < removed.len() && removed.len() <= k < backups.len()
        implies !lex_lt(#[trigger] backups[k], #[trigger] removed[a]) by {
        assert(removed[a] == backups[a]);
    }
}

} // verus!
