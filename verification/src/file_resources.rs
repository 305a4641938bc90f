//! File resources shown in the app: the wire records, bounded ticket reads,
//! exact-file grants, and the durable editor recovery store's rules.
use vstd::prelude::*;
use vstd::string::StringSliceAdditionalSpecFns;

use crate::digest::{lower_hex, lower_hex_chars, sha256, sha256_digest};
use crate::text::{into_string, push_slice, push_str_chars, sort_names, sorted_strings, str_eq, strings_view, trim_spec, trimmed_chars};

verus! {

/// Caps how many exact-file grants are remembered.
pub const DEFAULT_MAX_USER_FILE_GRANTS: usize = 128;
pub const USER_FILE_GRANT_STORE_SCHEMA_VERSION: u32 = 1;
pub const DEFAULT_MAX_SAVE_TARGET_GRANTS: usize = 32;
pub const MAX_TICKET_SNAPSHOT_BYTES: u64 = 1073741824;
pub const MIN_TICKET_SNAPSHOT_RESERVATION_BYTES: u64 = 4194304;
pub const DEFAULT_MAX_RECOVERY_RECORDS: usize = 128;
pub const DEFAULT_MAX_RECOVERY_BODY_BYTES: u64 = 536870912;
/// Seconds an orphaned recovery body or record is kept.
pub const RECOVERY_ORPHAN_GRACE_SECS: u64 = 86400;
/// Largest recovery manifest read.
pub const MAX_RECOVERY_MANIFEST_BYTES: u64 = 65536;

/// A refusal, with a stable code for the frontend and a message for people.
#[derive(Debug, Clone, PartialEq, Eq)]
pub struct FileResourceErrorV1 {
    pub code: String,
    pub message: String,
}

impl FileResourceErrorV1 {
    pub fn code(&self) -> (r: &str)
        ensures
            r@ == self.code@,
    {
        self.code.as_str()
    }
}

/// A refusal with the given code and message.
pub fn error(code: &str, message: &str) -> (r: FileResourceErrorV1)
    ensures
        r.code@ == code@,
        r.message@ == message@,
{
    FileResourceErrorV1 { code: code.to_owned(), message: message.to_owned() }
}

// ---------------------------------------------------------------------------
// Wire records

#[derive(Debug, Clone, PartialEq, Eq)]
pub struct FileResourceSnapshotV1<D> {
    pub resource_id: String,
    pub subscription_id: String,
    pub revision: u64,
    pub descriptor: D,
}

#[derive(Debug, Clone, PartialEq, Eq)]
pub struct FileResourceEventV1<D> {
    pub schema: u8,
    pub resource_id: String,
    pub revision: u64,
    pub descriptor: D,
}

#[derive(Debug, Clone, PartialEq, Eq)]
pub struct FileResourceTextV1 {
    pub schema: u8,
    pub resource_id: String,
    pub revision: u64,
    pub text: String,
}

/// The outcome of an optimistic save.
#[derive(Debug, Clone, PartialEq, Eq)]
pub enum FileResourceSaveResultV1 {
    /// The text replaced the target and advanced the revision.
    Saved { revision: u64, content_hash: String },
    /// The text was byte-identical to the target.
    Unchanged { revision: u64, content_hash: String },
    /// The editor's base no longer matches the target.
    StaleConflict { revision: u64, content_hash: String },
}

#[derive(Debug, Clone, PartialEq, Eq)]
pub struct FileResourceTicketV1 {
    pub schema: u8,
    pub ticket_id: String,
    pub url: String,
    pub resource_id: String,
    pub revision: u64,
    pub renderer_lease_id: String,
    pub expires_at_ms: u64,
}

#[derive(Debug, Clone, PartialEq, Eq)]
pub struct FileResourceRangeRead {
    pub bytes: Vec<u8>,
    pub mime_type: String,
    pub start: u64,
    pub end: u64,
    pub total_size: u64,
    pub partial: bool,
}

/// One-shot authority returned by the Save As picker.
#[derive(Debug, Clone, PartialEq, Eq)]
pub struct SaveTargetGrantV1 {
    pub schema: u8,
    pub save_target_grant_id: String,
    /// For display only; it is no filesystem authority.
    pub selected_path: String,
}

/// The exact-file capability a successful Save As creates.
#[derive(Debug, Clone, PartialEq, Eq)]
pub struct FileResourceSaveAsResultV1 {
    pub schema: u8,
    pub capability_id: String,
    pub canonical_path: String,
    pub resource_id: String,
    pub content_hash: String,
}

#[derive(Debug, Clone, PartialEq, Eq)]
pub struct UserFileGrantV1 {
    pub schema: u8,
    pub capability_id: String,
    pub canonical_path: String,
}

#[derive(Debug, Clone, PartialEq, Eq)]
pub struct FileRecoveryCheckpointV1 {
    pub schema: u8,
    pub recovery_id: String,
    pub resource_key: String,
    pub base_content_hash: String,
    pub base_opaque_revision: String,
    pub recovery_revision: u64,
    pub created_at_ms: u64,
    pub updated_at_ms: u64,
    /// A current-file authorization failure seen after the recovery committed;
    /// it never undoes the recovery.
    pub file_authorization_error: Option<FileResourceErrorV1>,
}

#[derive(Debug, Clone, PartialEq, Eq)]
pub struct FileRecoverySummaryV1 {
    pub schema: u8,
    pub recovery_id: String,
    pub resource_key: String,
    pub display_name: String,
    pub extension: Option<String>,
    pub mime_type: String,
    pub base_content_hash: String,
    pub base_opaque_revision: String,
    pub recovery_revision: u64,
    pub created_at_ms: u64,
    pub updated_at_ms: u64,
}

#[derive(Debug, Clone, PartialEq, Eq)]
pub struct FileRecoveryCleanupV1 {
    pub recovery_id: String,
    pub expected_recovery_revision: u64,
}

#[derive(Debug, Clone, PartialEq, Eq)]
pub struct FileRecoveryV1 {
    pub schema: u8,
    pub recovery_id: String,
    pub resource_key: String,
    pub display_name: String,
    pub extension: Option<String>,
    pub mime_type: String,
    pub base_content_hash: String,
    pub base_opaque_revision: String,
    pub recovery_revision: u64,
    pub base: String,
    pub buffer: String,
    pub created_at_ms: u64,
    pub updated_at_ms: u64,
}

/// A three-way recovery merge: conflicts carry explicit markers.
#[derive(Debug, Clone, PartialEq, Eq)]
pub enum FileRecoveryMergeResultV1 {
    Clean {
        recovery_revision: u64,
        current_revision: u64,
        current_content_hash: String,
        disk_changed: bool,
        merged_text: String,
    },
    Conflicted {
        recovery_revision: u64,
        current_revision: u64,
        current_content_hash: String,
        disk_changed: bool,
        merged_text: String,
    },
}

/// What a recovery record's manifest holds.
#[derive(Debug, Clone, PartialEq, Eq)]
pub struct FileRecoveryManifestV1 {
    pub schema: u8,
    pub recovery_id: String,
    pub resource_key: String,
    pub display_name: String,
    pub extension: Option<String>,
    pub mime_type: String,
    pub base_content_hash: String,
    pub base_opaque_revision: String,
    pub base_blob: String,
    pub buffer_blob: String,
    pub recovery_revision: u64,
    pub webview_scope: String,
    pub created_at_ms: u64,
    pub updated_at_ms: u64,
}

fn copy_opt(o: &Option<String>) -> (r: Option<String>)
    ensures
        match (r, *o) {
            (Some(a), Some(b)) => a@ == b@,
            (None, None) => true,
            _ => false,
        },
{
    match o {
        Some(s) => Some(s.clone()),
        None => None,
    }
}

// ---------------------------------------------------------------------------
// Ticket reads

/// The number of bytes an inclusive range `start..=end` covers in a snapshot
/// of `size` bytes; a range outside the snapshot is refused.
pub fn ticket_range_length(start: u64, end: u64, size: u64) -> (r: Result<usize, FileResourceErrorV1>)
    ensures
        (start > end || end >= size) ==> (r matches Err(e) && e.code@ == "range_not_satisfiable"@),
        (start <= end && end < size && end - start + 1 > usize::MAX) ==> (r matches Err(e) && e.code@ == "file_too_large"@),
        (start <= end && end < size && end - start + 1 <= usize::MAX) ==> r == Ok::<usize, FileResourceErrorV1>((end - start + 1) as usize),
{
    if start > end || end >= size {
        return Err(error("range_not_satisfiable", "byte range is outside the immutable ticket snapshot"));
    }
    let length = end - start + 1;
    if length as u128 > usize::MAX as u128 {
        return Err(error("file_too_large", "selected byte range cannot fit in process memory"));
    }
    Ok(length as usize)
}

// ---------------------------------------------------------------------------
// Exact-file grants

/// The remembered exact-file grants.
#[derive(Debug, Clone, PartialEq, Eq)]
pub struct DurableUserFileGrantStoreV1 {
    pub schema_version: u32,
    pub canonical_paths: Vec<String>,
}

/// A store of this schema whose paths are none of them blank.
pub open spec fn grant_store_valid(schema_version: u32, paths: Seq<Seq<char>>) -> bool {
    schema_version == USER_FILE_GRANT_STORE_SCHEMA_VERSION
        && forall|i: int| 0 <= i < paths.len() ==> trim_spec(#[trigger] paths[i]).len() > 0
}

/// Accepts a parsed grant store only with the known schema and no blank path.
pub fn validate_grant_store(store: DurableUserFileGrantStoreV1) -> (r: Result<DurableUserFileGrantStoreV1, FileResourceErrorV1>)
    ensures
        grant_store_valid(store.schema_version, strings_view(store.canonical_paths@)) ==> (r matches Ok(s) && s == store),
        !grant_store_valid(store.schema_version, strings_view(store.canonical_paths@)) ==> (r matches Err(e)
            && e.code@ == "grant_store_unavailable"@ && e.message@ == "exact file grants use an unsupported or invalid schema"@),
{
    let mut valid = store.schema_version == USER_FILE_GRANT_STORE_SCHEMA_VERSION;
    let ghost paths = strings_view(store.canonical_paths@);
    let mut i: usize = 0;
    while i < store.canonical_paths.len()
        invariant
            i <= store.canonical_paths@.len(),
            paths == strings_view(store.canonical_paths@),
            valid == (store.schema_version == USER_FILE_GRANT_STORE_SCHEMA_VERSION
                && forall|j: int| 0 <= j < i ==> trim_spec(#[trigger] paths[j]).len() > 0),
        decreases store.canonical_paths@.len() - i,
    {
        let t = trimmed_chars(store.canonical_paths[i].as_str());
        assert(paths[i as int] == store.canonical_paths@[i as int]@);
        if t.len() == 0 {
            valid = false;
        }
        i = i + 1;
    }
    if valid {
        Ok(store)
    } else {
        Err(error("grant_store_unavailable", "exact file grants use an unsupported or invalid schema"))
    }
}

/// The store a missing grant file stands for.
pub fn empty_grant_store() -> (r: DurableUserFileGrantStoreV1)
    ensures
        r.schema_version == USER_FILE_GRANT_STORE_SCHEMA_VERSION,
        r.canonical_paths@.len() == 0,
{
    DurableUserFileGrantStoreV1 { schema_version: USER_FILE_GRANT_STORE_SCHEMA_VERSION, canonical_paths: Vec::new() }
}

/// Whether a path is among the remembered grants.
pub fn durable_user_file_grant_matches(paths: &[String], canonical_path: &str) -> (r: bool)
    ensures
        r == strings_view(paths@).contains(canonical_path@),
{
    let ghost v = strings_view(paths@);
    let mut i: usize = 0;
    while i < paths.len()
        invariant
            i <= paths@.len(),
            v == strings_view(paths@),
            forall|j: int| 0 <= j < i ==> v[j] != canonical_path@,
        decreases paths@.len() - i,
    {
        if str_eq(paths[i].as_str(), canonical_path) {
            assert(v[i as int] == canonical_path@);
            return true;
        }
        i = i + 1;
    }
    false
}

/// The paths other than `p`, in order.
pub open spec fn without_path(paths: Seq<Seq<char>>, p: Seq<char>) -> Seq<Seq<char>>
    decreases paths.len(),
{
    if paths.len() == 0 {
        Seq::empty()
    } else {
        let prev = without_path(paths.drop_last(), p);
        if paths.last() != p { prev.push(paths.last()) } else { prev }
    }
}

/// Remembering a grant: it moves to the newest place, and the oldest grants
/// beyond the cap are forgotten.
pub open spec fn upsert_spec(paths: Seq<Seq<char>>, p: Seq<char>, max: nat) -> Seq<Seq<char>> {
    let s = without_path(paths, p).push(p);
    if s.len() > max { s.skip(s.len() - max) } else { s }
}

/// The grant paths after remembering `canonical_path`.
pub fn upsert_grant_paths(paths: Vec<String>, canonical_path: &str, max_grants: usize) -> (r: Vec<String>)
    ensures
        strings_view(r@) == upsert_spec(strings_view(paths@), canonical_path@, max_grants as nat),
{
    let ghost v = strings_view(paths@);
    let mut kept: Vec<String> = Vec::new();
    let mut i: usize = 0;
    while i < paths.len()
        invariant
            i <= paths@.len(),
            v == strings_view(paths@),
            strings_view(kept@) == without_path(v.take(i as int), canonical_path@),
            kept@.len() <= i,
        decreases paths@.len() - i,
    {
        let ghost before = kept@;
        if !str_eq(paths[i].as_str(), canonical_path) {
            kept.push(paths[i].clone());
            assert(strings_view(kept@) =~= strings_view(before).push(v[i as int]));
        }
        assert(v.take(i + 1).drop_last() =~= v.take(i as int));
        i = i + 1;
    }
    assert(v.take(v.len() as int) =~= v);
    let ghost before = kept@;
    kept.push(canonical_path.to_owned());
    assert(strings_view(kept@) =~= strings_view(before).push(canonical_path@));
    if kept.len() > max_grants {
        let overflow = kept.len() - max_grants;
        let ghost full = strings_view(kept@);
        let mut out: Vec<String> = Vec::new();
        let mut k: usize = overflow;
        while k < kept.len()
            invariant
                overflow <= k <= kept@.len(),
                full == strings_view(kept@),
                strings_view(out@) == full.subrange(overflow as int, k as int),
            decreases kept@.len() - k,
        {
            let ghost b = out@;
            out.push(kept[k].clone());
            assert(strings_view(out@) =~= strings_view(b).push(full[k as int]));
            assert(full.subrange(overflow as int, k + 1) =~= full.subrange(overflow as int, k as int).push(full[k as int]));
            k = k + 1;
        }
        assert(full.subrange(overflow as int, full.len() as int) =~= full.skip(overflow as int));
        out
    } else {
        kept
    }
}

proof fn lemma_without_path(paths: Seq<Seq<char>>, p: Seq<char>)
    ensures
        !without_path(paths, p).contains(p),
        without_path(paths, p).len() <= paths.len(),
        forall|q: Seq<char>| q != p && paths.contains(q) ==> without_path(paths, p).contains(q),
    decreases paths.len(),
{
    if paths.len() > 0 {
        let d = paths.drop_last();
        lemma_without_path(d, p);
        let prev = without_path(d, p);
        let r = without_path(paths, p);
        assert forall|q: Seq<char>| q != p && paths.contains(q) implies r.contains(q) by {
            let i = choose|i: int| 0 <= i < paths.len() && paths[i] == q;
            if i < paths.len() - 1 {
                assert(d[i] == q);
                assert(d.contains(q));
                let j = choose|j: int| 0 <= j < prev.len() && prev[j] == q;
                if paths.last() != p {
                    assert(r[j] == q);
                }
            } else {
                assert(r[r.len() - 1] == q);
            }
        }
        if r.contains(p) {
            let j = choose|j: int| 0 <= j < r.len() && r[j] == p;
            if j < prev.len() {
                assert(prev[j] == p);
            }
        }
    }
}

/// Remembering a grant makes it the newest, keeps it once, keeps within the
/// cap, and forgets no other grant unless the cap forces it to.
pub proof fn law_upsert_keeps_one_newest_grant(paths: Seq<Seq<char>>, p: Seq<char>, max: nat)
    requires
        max >= 1,
    ensures
        upsert_spec(paths, p, max).len() > 0,
        upsert_spec(paths, p, max).last() == p,
        upsert_spec(paths, p, max).len() <= max,
        forall|i: int| 0 <= i < upsert_spec(paths, p, max).len() - 1 ==> #[trigger] upsert_spec(paths, p, max)[i] != p,
        paths.len() < max ==> forall|q: Seq<char>| paths.contains(q) ==> #[trigger] upsert_spec(paths, p, max).contains(q),
{
    lemma_without_path(paths, p);
    let w = without_path(paths, p);
    let s = w.push(p);
    let r = upsert_spec(paths, p, max);
    assert forall|i: int| 0 <= i < r.len() - 1 implies #[trigger] r[i] != p by {
        if s.len() > max {
            assert(r[i] == s[i + s.len() - max]);
            assert(w[i + s.len() - max] == s[i + s.len() - max]);
        } else {
            assert(r[i] == w[i]);
        }
    }
    assert forall|q: Seq<char>| paths.len() < max && paths.contains(q) implies #[trigger] r.contains(q) by {
        if q == p {
            assert(r[r.len() - 1] == p);
        } else {
            let j = choose|j: int| 0 <= j < w.len() && w[j] == q;
            assert(r[j] == q);
        }
    }
}

// ---------------------------------------------------------------------------
// Durable editor recovery

/// The bytes of `text` as UTF-8.
pub open spec fn utf8_of(text: Seq<char>) -> Seq<u8> {
    vstd::utf8::encode_utf8(text)
}

/// `sha256-<hex digest of the text>.txt`: a body's content address.
pub open spec fn recovery_blob_name_spec(text: Seq<char>) -> Seq<char> {
    "sha256-"@ + lower_hex(sha256_digest(utf8_of(text))) + ".txt"@
}

/// The content address of a recovery body.
pub fn recovery_blob_name(text: &str) -> (r: String)
    ensures
        r@ == recovery_blob_name_spec(text@),
{
    let digest = sha256(text.as_bytes());
    let hex = lower_hex_chars(digest.as_slice());
    let mut out: Vec<char> = Vec::new();
    push_str_chars(&mut out, "sha256-");
    push_slice(&mut out, hex.as_slice());
    push_str_chars(&mut out, ".txt");
    into_string(out)
}

pub open spec fn ascii_hexdigit(b: u8) -> bool {
    (0x30 <= b <= 0x39) || (0x41 <= b <= 0x46) || (0x61 <= b <= 0x66)
}

/// A content address: `sha256-`, 64 ASCII hex digits, `.txt`, by bytes.
pub open spec fn blob_name_bytes_ok(b: Seq<u8>) -> bool {
    &&& b.len() == 75
    &&& b.take(7) == seq![0x73u8, 0x68, 0x61, 0x32, 0x35, 0x36, 0x2d]
    &&& b.skip(71) == seq![0x2eu8, 0x74, 0x78, 0x74]
    &&& forall|i: int| 7 <= i < 71 ==> ascii_hexdigit(#[trigger] b[i])
}

/// Whether a file name is a recovery body's content address.
pub fn is_recovery_blob_name(blob_name: &str) -> (r: bool)
    ensures
        r == blob_name_bytes_ok(utf8_of(blob_name@)),
{
    let b = blob_name.as_bytes();
    if b.len() != 75 {
        return false;
    }
    let prefix: [u8; 7] = [0x73u8, 0x68, 0x61, 0x32, 0x35, 0x36, 0x2d];
    let suffix: [u8; 4] = [0x2eu8, 0x74, 0x78, 0x74];
    let mut i: usize = 0;
    while i < 7
        invariant
            i <= 7,
            b@.len() == 75,
            b@ == utf8_of(blob_name@),
            prefix@ == seq![0x73u8, 0x68, 0x61, 0x32, 0x35, 0x36, 0x2d],
            forall|j: int| 0 <= j < i ==> b@[j] == prefix@[j],
        decreases 7 - i,
    {
        if b[i] != prefix[i] {
            assert(b@.take(7)[i as int] != prefix@[i as int]);
            return false;
        }
        i = i + 1;
    }
    assert(b@.take(7) =~= prefix@);
    let mut k: usize = 0;
    while k < 4
        invariant
            k <= 4,
            b@.len() == 75,
            b@ == utf8_of(blob_name@),
            b@.take(7) == seq![0x73u8, 0x68, 0x61, 0x32, 0x35, 0x36, 0x2d],
            suffix@ == seq![0x2eu8, 0x74, 0x78, 0x74],
            forall|j: int| 0 <= j < k ==> b@[71 + j] == suffix@[j],
        decreases 4 - k,
    {
        if b[71 + k] != suffix[k] {
            assert(b@.skip(71)[k as int] != suffix@[k as int]);
            return false;
        }
        k = k + 1;
    }
    assert(b@.skip(71) =~= suffix@);
    let mut m: usize = 7;
    while m < 71
        invariant
            7 <= m <= 71,
            b@.len() == 75,
            b@ == utf8_of(blob_name@),
            b@.take(7) == seq![0x73u8, 0x68, 0x61, 0x32, 0x35, 0x36, 0x2d],
            b@.skip(71) == seq![0x2eu8, 0x74, 0x78, 0x74],
            forall|j: int| 7 <= j < m ==> ascii_hexdigit(#[trigger] b@[j]),
        decreases 71 - m,
    {
        let c = b[m];
        if !((0x30 <= c && c <= 0x39) || (0x41 <= c && c <= 0x46) || (0x61 <= c && c <= 0x66)) {
            return false;
        }
        m = m + 1;
    }
    true
}

/// A manifest may be read only by the resource and webview scope that wrote it.
pub fn authorize_recovery_manifest(manifest: &FileRecoveryManifestV1, resource_key: &str, webview_scope: &str) -> (r: Result<(), FileResourceErrorV1>)
    ensures
        (manifest.schema == 1 && manifest.resource_key@ == resource_key@ && manifest.webview_scope@ == webview_scope@) ==> r is Ok,
        !(manifest.schema == 1 && manifest.resource_key@ == resource_key@ && manifest.webview_scope@ == webview_scope@)
            ==> (r matches Err(e) && e.code@ == "unauthorized_recovery"@),
{
    if manifest.schema != 1 || !str_eq(manifest.resource_key.as_str(), resource_key)
        || !str_eq(manifest.webview_scope.as_str(), webview_scope) {
        return Err(error("unauthorized_recovery", "recovery does not belong to this resource and webview scope"));
    }
    Ok(())
}

/// A loaded manifest must be the record's and of the known schema.
pub fn validate_manifest_identity(manifest: &FileRecoveryManifestV1, recovery_id: &str) -> (r: Result<(), FileResourceErrorV1>)
    ensures
        (manifest.recovery_id@ == recovery_id@ && manifest.schema == 1) ==> r is Ok,
        !(manifest.recovery_id@ == recovery_id@ && manifest.schema == 1) ==> (r matches Err(e) && e.code@ == "invalid_recovery"@),
{
    if !str_eq(manifest.recovery_id.as_str(), recovery_id) || manifest.schema != 1 {
        return Err(error("invalid_recovery", "recovery manifest identity or schema is invalid"));
    }
    Ok(())
}

/// A manifest file is read only when it is an ordinary file of at most 64 KiB.
pub fn check_manifest_file(is_file: bool, len: u64) -> (r: Result<(), FileResourceErrorV1>)
    ensures
        (is_file && len <= MAX_RECOVERY_MANIFEST_BYTES) ==> r is Ok,
        !(is_file && len <= MAX_RECOVERY_MANIFEST_BYTES) ==> (r matches Err(e) && e.code@ == "invalid_recovery"@),
{
    if !is_file || len > MAX_RECOVERY_MANIFEST_BYTES {
        return Err(error("invalid_recovery", "recovery manifest is not a bounded ordinary file"));
    }
    Ok(())
}

/// What a checkpoint reports of its manifest.
pub fn recovery_checkpoint_metadata(manifest: &FileRecoveryManifestV1, file_authorization_error: Option<FileResourceErrorV1>) -> (r: FileRecoveryCheckpointV1)
    ensures
        r.schema == 1,
        r.recovery_id@ == manifest.recovery_id@,
        r.resource_key@ == manifest.resource_key@,
        r.base_content_hash@ == manifest.base_content_hash@,
        r.base_opaque_revision@ == manifest.base_opaque_revision@,
        r.recovery_revision == manifest.recovery_revision,
        r.created_at_ms == manifest.created_at_ms,
        r.updated_at_ms == manifest.updated_at_ms,
        r.file_authorization_error == file_authorization_error,
{
    FileRecoveryCheckpointV1 {
        schema: 1,
        recovery_id: manifest.recovery_id.clone(),
        resource_key: manifest.resource_key.clone(),
        base_content_hash: manifest.base_content_hash.clone(),
        base_opaque_revision: manifest.base_opaque_revision.clone(),
        recovery_revision: manifest.recovery_revision,
        created_at_ms: manifest.created_at_ms,
        updated_at_ms: manifest.updated_at_ms,
        file_authorization_error,
    }
}

/// The body-free summary of a recovery record.
pub fn recovery_summary_metadata(manifest: &FileRecoveryManifestV1) -> (r: FileRecoverySummaryV1)
    ensures
        r.schema == 1,
        r.recovery_id@ == manifest.recovery_id@,
        r.resource_key@ == manifest.resource_key@,
        r.display_name@ == manifest.display_name@,
        match (r.extension, manifest.extension) {
            (Some(a), Some(b)) => a@ == b@,
            (None, None) => true,
            _ => false,
        },
        r.mime_type@ == manifest.mime_type@,
        r.base_content_hash@ == manifest.base_content_hash@,
        r.base_opaque_revision@ == manifest.base_opaque_revision@,
        r.recovery_revision == manifest.recovery_revision,
        r.created_at_ms == manifest.created_at_ms,
        r.updated_at_ms == manifest.updated_at_ms,
{
    FileRecoverySummaryV1 {
        schema: 1,
        recovery_id: manifest.recovery_id.clone(),
        resource_key: manifest.resource_key.clone(),
        display_name: manifest.display_name.clone(),
        extension: copy_opt(&manifest.extension),
        mime_type: manifest.mime_type.clone(),
        base_content_hash: manifest.base_content_hash.clone(),
        base_opaque_revision: manifest.base_opaque_revision.clone(),
        recovery_revision: manifest.recovery_revision,
        created_at_ms: manifest.created_at_ms,
        updated_at_ms: manifest.updated_at_ms,
    }
}

/// The revision a new checkpoint takes; refused once revisions run out.
pub fn next_recovery_revision(revision: u64) -> (r: Result<u64, FileResourceErrorV1>)
    ensures
        revision < u64::MAX ==> r == Ok::<u64, FileResourceErrorV1>((revision + 1) as u64),
        revision == u64::MAX ==> (r matches Err(e) && e.code@ == "recovery_conflict"@),
{
    match revision.checked_add(1) {
        Some(n) => Ok(n),
        None => Err(error("recovery_conflict", "recovery revision is exhausted")),
    }
}

/// A body read back must be the one its name addresses.
pub fn verify_blob_text(text: &str, blob_name: &str) -> (r: Result<(), FileResourceErrorV1>)
    ensures
        recovery_blob_name_spec(text@) == blob_name@ ==> r is Ok,
        recovery_blob_name_spec(text@) != blob_name@ ==> (r matches Err(e) && e.code@ == "invalid_recovery"@),
{
    let name = recovery_blob_name(text);
    if !str_eq(name.as_str(), blob_name) {
        return Err(error("invalid_recovery", "recovery blob hash does not match its immutable name"));
    }
    Ok(())
}

/// An existing body at a content address must be an ordinary file holding
/// exactly the text's bytes.
pub fn check_existing_blob(is_file: bool, existing: &[u8], text: &str) -> (r: Result<(), FileResourceErrorV1>)
    ensures
        (is_file && existing@ == utf8_of(text@)) ==> r is Ok,
        !(is_file && existing@ == utf8_of(text@)) ==> (r matches Err(e) && e.code@ == "invalid_recovery"@),
{
    let t = text.as_bytes();
    if !is_file || existing.len() != t.len() {
        return Err(error("invalid_recovery", "existing recovery blob is not the expected bounded ordinary file"));
    }
    let mut i: usize = 0;
    while i < t.len()
        invariant
            i <= t@.len(),
            t@ == utf8_of(text@),
            existing@.len() == t@.len(),
            forall|j: int| 0 <= j < i ==> existing@[j] == t@[j],
        decreases t@.len() - i,
    {
        if existing[i] != t[i] {
            assert(existing@[i as int] != t@[i as int]);
            return Err(error("invalid_recovery", "hash-addressed recovery blob contains different bytes"));
        }
        i = i + 1;
    }
    assert(existing@ =~= t@);
    Ok(())
}

/// How much the recovery store holds.
#[derive(Debug, Clone, Copy, PartialEq, Eq)]
pub struct FileRecoveryStoreUsage {
    pub records: usize,
    pub body_bytes: u64,
}

/// The store's caps.
#[derive(Debug, Clone, Copy, PartialEq, Eq)]
pub struct FileRecoveryStoreLimits {
    pub max_records: usize,
    pub max_body_bytes: u64,
    pub orphan_grace_secs: u64,
}

impl Default for FileRecoveryStoreLimits {
    fn default() -> (r: Self)
        ensures
            r == (FileRecoveryStoreLimits {
                max_records: DEFAULT_MAX_RECOVERY_RECORDS,
                max_body_bytes: DEFAULT_MAX_RECOVERY_BODY_BYTES,
                orphan_grace_secs: RECOVERY_ORPHAN_GRACE_SECS,
            }),
    {
        FileRecoveryStoreLimits {
            max_records: DEFAULT_MAX_RECOVERY_RECORDS,
            max_body_bytes: DEFAULT_MAX_RECOVERY_BODY_BYTES,
            orphan_grace_secs: RECOVERY_ORPHAN_GRACE_SECS,
        }
    }
}

pub open spec fn sat_add(a: u64, b: u64) -> u64 {
    if a + b > u64::MAX { u64::MAX } else { (a + b) as u64 }
}

pub open spec fn sat_sum(sizes: Seq<u64>) -> u64
    decreases sizes.len(),
{
    if sizes.len() == 0 { 0 } else { sat_add(sat_sum(sizes.drop_last()), sizes.last()) }
}

/// The store's usage from its record count and the sizes of its body files.
pub fn store_usage(records: usize, body_sizes: &[u64]) -> (r: FileRecoveryStoreUsage)
    ensures
        r.records == records,
        r.body_bytes == sat_sum(body_sizes@),
{
    let mut total: u64 = 0;
    let mut i: usize = 0;
    while i < body_sizes.len()
        invariant
            i <= body_sizes@.len(),
            total == sat_sum(body_sizes@.take(i as int)),
        decreases body_sizes@.len() - i,
    {
        total = total.saturating_add(body_sizes[i]);
        assert(body_sizes@.take(i + 1).drop_last() =~= body_sizes@.take(i as int));
        i = i + 1;
    }
    assert(body_sizes@.take(body_sizes@.len() as int) =~= body_sizes@);
    FileRecoveryStoreUsage { records, body_bytes: total }
}

/// The bytes a checkpoint adds: each distinct body not already stored.
pub open spec fn additional_bytes_spec(base: Seq<char>, buffer: Seq<char>, existing: Seq<Seq<char>>) -> u64 {
    let nb = recovery_blob_name_spec(base);
    let nf = recovery_blob_name_spec(buffer);
    let a = if existing.contains(nb) { 0u64 } else { utf8_of(base).len() as u64 };
    let b = if nf == nb || existing.contains(nf) { 0u64 } else { utf8_of(buffer).len() as u64 };
    sat_add(a, b)
}

/// What admitting a checkpoint decides: a new record is refused when the store
/// holds its cap of records; any checkpoint is refused when its new bodies
/// would take the store past its byte cap.
pub open spec fn admission_spec(
    usage: FileRecoveryStoreUsage,
    record_exists: bool,
    base: Seq<char>,
    buffer: Seq<char>,
    existing: Seq<Seq<char>>,
    limits: FileRecoveryStoreLimits,
) -> Result<(), Seq<char>> {
    if !record_exists && usage.records >= limits.max_records {
        Err("durable editor recovery record limit is reached"@)
    } else if sat_add(usage.body_bytes, additional_bytes_spec(base, buffer, if record_exists { existing } else { Seq::empty() }))
        > limits.max_body_bytes {
        Err("durable editor recovery body-byte limit is reached"@)
    } else {
        Ok(())
    }
}

/// Decides whether a checkpoint of `base` and `buffer` may be written, given
/// the store's usage and the body names the record already holds.
pub fn enforce_recovery_admission(
    usage: FileRecoveryStoreUsage,
    record_exists: bool,
    base: &str,
    buffer: &str,
    existing_blobs: &[String],
    limits: FileRecoveryStoreLimits,
) -> (r: Result<(), FileResourceErrorV1>)
    ensures
        match admission_spec(usage, record_exists, base@, buffer@, strings_view(existing_blobs@), limits) {
            Ok(()) => r is Ok,
            Err(m) => r matches Err(e) && e.code@ == "recovery_capacity_exceeded"@ && e.message@ == m,
        },
{
    if !record_exists && usage.records >= limits.max_records {
        return Err(error("recovery_capacity_exceeded", "durable editor recovery record limit is reached"));
    }
    let ghost existing = if record_exists { strings_view(existing_blobs@) } else { Seq::<Seq<char>>::empty() };
    let base_name = recovery_blob_name(base);
    let buffer_name = recovery_blob_name(buffer);
    let base_there = record_exists && durable_user_file_grant_matches(existing_blobs, base_name.as_str());
    let a: u64 = if base_there { 0 } else { base.as_bytes().len() as u64 };
    let same = str_eq(base_name.as_str(), buffer_name.as_str());
    let buffer_there = same || (record_exists && durable_user_file_grant_matches(existing_blobs, buffer_name.as_str()));
    let b: u64 = if buffer_there { 0 } else { buffer.as_bytes().len() as u64 };
    proof {
        if !record_exists {
            assert(!existing.contains(base_name@));
            assert(!existing.contains(buffer_name@));
        }
    }
    let additional = a.saturating_add(b);
    if usage.body_bytes.saturating_add(additional) > limits.max_body_bytes {
        return Err(error("recovery_capacity_exceeded", "durable editor recovery body-byte limit is reached"));
    }
    Ok(())
}

/// Whether a file in a record's body directory is an orphan to remove: a
/// content address the manifest no longer names, an ordinary file, and older
/// than the grace period.
pub fn collectable_blob(name: &str, manifest: &FileRecoveryManifestV1, is_file: bool, old_enough: bool) -> (r: bool)
    ensures
        r == (blob_name_bytes_ok(utf8_of(name@)) && name@ != manifest.base_blob@ && name@ != manifest.buffer_blob@
            && is_file && old_enough),
{
    is_recovery_blob_name(name) && !str_eq(name, manifest.base_blob.as_str())
        && !str_eq(name, manifest.buffer_blob.as_str()) && is_file && old_enough
}

/// The lowercase hyphenated form of a UUID: 36 characters, hyphens at 8, 13,
/// 18 and 23, lowercase hexadecimal digits elsewhere.
pub open spec fn canonical_uuid_form(s: Seq<char>) -> bool {
    s.len() == 36 && forall|i: int| 0 <= i < 36 ==> (if i == 8 || i == 13 || i == 18 || i == 23 {
        #[trigger] s[i] == '-'
    } else {
        ('0' <= s[i] <= '9') || ('a' <= s[i] <= 'f')
    })
}

pub open spec fn opt_text(o: Option<String>) -> Option<Seq<char>> {
    match o {
        Some(t) => Some(t@),
        None => None,
    }
}

pub open spec fn is_hex_char(c: char) -> bool {
    ('0' <= c <= '9') || ('a' <= c <= 'f') || ('A' <= c <= 'F')
}

pub open spec fn is_hyphen_position(i: int) -> bool {
    i == 8 || i == 13 || i == 18 || i == 23
}

/// The 36-character hyphenated form, in either case.
pub open spec fn hyphenated_form(s: Seq<char>) -> bool {
    s.len() == 36 && forall|i: int| 0 <= i < 36 ==> (if is_hyphen_position(i) {
        #[trigger] s[i] == '-'
    } else {
        is_hex_char(s[i])
    })
}

/// Where the `k`th hexadecimal digit stands in the hyphenated form.
pub open spec fn digit_position(k: int) -> int {
    k + (if k >= 8 { 1int } else { 0 }) + (if k >= 12 { 1int } else { 0 }) + (if k >= 16 { 1int } else { 0 })
        + (if k >= 20 { 1int } else { 0 })
}

/// Which hexadecimal digit stands at position `i` of the hyphenated form.
pub open spec fn digit_index(i: int) -> int {
    i - (if i > 8 { 1int } else { 0 }) - (if i > 13 { 1int } else { 0 }) - (if i > 18 { 1int } else { 0 })
        - (if i > 23 { 1int } else { 0 })
}

/// The 32 hexadecimal digits of a UUID text `uuid::Uuid::parse_str`
/// accepts: 32 digits; the hyphenated form; the hyphenated form in braces;
/// or the hyphenated form after `urn:uuid:` in any case. Digits are of
/// either case.
pub open spec fn uuid_digits(s: Seq<char>) -> Option<Seq<char>> {
    let h = if s.len() == 38 && s[0] == '{' && s[37] == '}' {
        s.subrange(1, 37)
    } else if s.len() == 45 && crate::text::ascii_lower_seq(s.take(9)) == "urn:uuid:"@ {
        s.skip(9)
    } else {
        s
    };
    if s.len() == 32 && forall|i: int| 0 <= i < 32 ==> is_hex_char(#[trigger] s[i]) {
        Some(s)
    } else if (s.len() == 36 || s.len() == 38 || s.len() == 45) && hyphenated_form(h) {
        Some(Seq::new(32, |k: int| h[digit_position(k)]))
    } else {
        None
    }
}

/// The text `Uuid::to_string` writes for these digits: lowercase, hyphenated.
pub open spec fn uuid_text(d: Seq<char>) -> Seq<char> {
    Seq::new(36, |i: int| if is_hyphen_position(i) { '-' } else { crate::text::ascii_lower_of(d[digit_index(i)]) })
}

/// The text `uuid::Uuid::parse_str` followed by `to_string` makes of `s`.
pub open spec fn uuid_round_trip(s: Seq<char>) -> Option<Seq<char>> {
    match uuid_digits(s) {
        Some(d) => Some(uuid_text(d)),
        None => None,
    }
}

/// Calls `uuid::Uuid::parse_str` and writes a parsed value with `to_string`:
/// the accepted spellings are those `uuid_digits` lists, and the text
/// written is the lowercase hyphenated form of the digits.
#[verifier::external_body]
fn uuid_reformatted(s: &str) -> (r: Option<String>)
    ensures
        opt_text(r) == uuid_round_trip(s@),
{
    match uuid::Uuid::parse_str(s) {
        Ok(u) => Some(u.to_string()),
        Err(_) => None,
    }
}

/// A written UUID is in canonical form, and a text in canonical form is
/// written back unchanged.
proof fn lemma_uuid_round_trip(s: Seq<char>)
    ensures
        uuid_round_trip(s) matches Some(t) ==> canonical_uuid_form(t),
        canonical_uuid_form(s) ==> uuid_round_trip(s) == Some(s),
{
    if uuid_digits(s) is Some {
        let d = uuid_digits(s)->0;
        assert forall|k: int| 0 <= k < 32 implies is_hex_char(#[trigger] d[k]) by {
            if !(s.len() == 32 && forall|i: int| 0 <= i < 32 ==> is_hex_char(#[trigger] s[i])) {
                let h = if s.len() == 38 && s[0] == '{' && s[37] == '}' {
                    s.subrange(1, 37)
                } else if s.len() == 45 && crate::text::ascii_lower_seq(s.take(9)) == "urn:uuid:"@ {
                    s.skip(9)
                } else {
                    s
                };
                assert(d[k] == h[digit_position(k)]);
                assert(!is_hyphen_position(digit_position(k)));
            }
        }
        let t = uuid_text(d);
        assert forall|i: int| 0 <= i < 36 implies (if i == 8 || i == 13 || i == 18 || i == 23 {
            #[trigger] t[i] == '-'
        } else {
            ('0' <= t[i] <= '9') || ('a' <= t[i] <= 'f')
        }) by {
            if !is_hyphen_position(i) {
                assert(0 <= digit_index(i) < 32);
                assert(is_hex_char(d[digit_index(i)]));
            }
        }
    }
    if canonical_uuid_form(s) {
        assert(hyphenated_form(s)) by {
            assert forall|i: int| 0 <= i < 36 implies (if is_hyphen_position(i) {
                #[trigger] s[i] == '-'
            } else {
                is_hex_char(s[i])
            }) by {
                assert(s[i] == s[i]);
            }
        }
        assert(!(s.len() == 38 && s[0] == '{' && s[37] == '}'));
        let d = uuid_digits(s)->0;
        assert(d == Seq::new(32, |k: int| s[digit_position(k)]));
        assert forall|i: int| 0 <= i < 36 implies #[trigger] uuid_text(d)[i] == s[i] by {
            if !is_hyphen_position(i) {
                assert(digit_position(digit_index(i)) == i);
                assert(('0' <= s[i] <= '9') || ('a' <= s[i] <= 'f'));
            }
        }
        assert(uuid_text(d) =~= s);
    }
}

/// A recovery identity must be a UUID in its lowercase hyphenated form.
pub fn check_recovery_id(recovery_id: &str) -> (r: Result<(), FileResourceErrorV1>)
    ensures
        r is Ok <==> canonical_uuid_form(recovery_id@),
        uuid_round_trip(recovery_id@) is None ==> (r matches Err(e) && e.code@ == "invalid_request"@
            && e.message@ == "recovery id is not a valid opaque identifier"@),
        uuid_round_trip(recovery_id@) is Some && !canonical_uuid_form(recovery_id@) ==> (r matches Err(e)
            && e.code@ == "invalid_request"@ && e.message@ == "recovery id is not in canonical form"@),
        r matches Err(e) ==> e.code@ == "invalid_request"@,
{
    proof { lemma_uuid_round_trip(recovery_id@); }
    match uuid_reformatted(recovery_id) {
        None => Err(error("invalid_request", "recovery id is not a valid opaque identifier")),
        Some(t) => {
            if str_eq(t.as_str(), recovery_id) {
                Ok(())
            } else {
                Err(error("invalid_request", "recovery id is not in canonical form"))
            }
        },
    }
}

/// The canonical recovery identities among `names`, in the order given.
pub open spec fn canonical_ids(names: Seq<Seq<char>>) -> Seq<Seq<char>>
    decreases names.len(),
{
    if names.len() == 0 {
        Seq::empty()
    } else {
        let p = canonical_ids(names.drop_last());
        if canonical_uuid_form(names.last()) { p.push(names.last()) } else { p }
    }
}

/// The recovery records of a store from the names of its record directories:
/// the canonical identities, sorted.
pub fn recovery_ids_from(names: &[String]) -> (r: Vec<String>)
    ensures
        strings_view(r@) == sort_names(canonical_ids(strings_view(names@))),
{
    let ghost v = strings_view(names@);
    let mut ids: Vec<String> = Vec::new();
    let mut i: usize = 0;
    while i < names.len()
        invariant
            i <= names@.len(),
            v == strings_view(names@),
            strings_view(ids@) == canonical_ids(v.take(i as int)),
        decreases names@.len() - i,
    {
        let ghost before = ids@;
        if check_recovery_id(names[i].as_str()).is_ok() {
            ids.push(names[i].clone());
            assert(strings_view(ids@) =~= strings_view(before).push(v[i as int]));
        }
        assert(v.take(i + 1).drop_last() =~= v.take(i as int));
        i = i + 1;
    }
    assert(v.take(v.len() as int) =~= v);
    sorted_strings(ids)
}

} // verus!
