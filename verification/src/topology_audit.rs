//! The audit trail of privileged topology changes: one record per attempt,
//! and when the log is rotated.
use vstd::prelude::*;
use vstd::string::StringSliceAdditionalSpecFns;

use crate::text::{chars_of, into_string, push_str_chars};

verus! {

pub const TOPOLOGY_AUDIT_SCHEMA_VERSION: u8 = 1;
/// The log, below the Wardian home.
pub const AUDIT_LOG_FILE: &'static str = "topology/audit.jsonl";
/// The previous log, below the Wardian home.
pub const AUDIT_LOG_ARCHIVE_FILE: &'static str = "topology/audit.jsonl.1";
/// A log this large is rotated before the next record is written.
pub const AUDIT_LOG_ROTATE_BYTES: u64 = 10485760;

/// One topology mutation attempt and what was decided.
#[derive(Debug, Clone, PartialEq, Eq)]
pub struct TopologyAuditRecord {
    pub schema_version: u8,
    pub at: String,
    /// `operator` or `agent:<uuid>`.
    pub caller: String,
    /// `link`, `unlink`, `ignore` or `unignore`.
    pub operation: String,
    pub a: String,
    pub b: String,
    /// `applied`, `unchanged` or `denied`.
    pub outcome: String,
    pub error_code: Option<String>,
}

/// Whether the log must move aside before the next record: it exists and has
/// reached the limit.
pub fn should_rotate_audit_log(current_len: Option<u64>, rotate_bytes: u64) -> (r: bool)
    ensures
        r == match current_len {
            Some(n) => n >= rotate_bytes,
            None => false,
        },
{
    match current_len {
        Some(n) => n >= rotate_bytes,
        None => false,
    }
}

/// A path below a home, joined as `Path::join` joins a relative path: the
/// relative path alone below an empty home, else one `/` between them unless
/// the home already ends in one.
pub open spec fn below_home(home: Seq<char>, relative: Seq<char>) -> Seq<char> {
    if home.len() == 0 || home.last() == '/' { home + relative } else { home + seq!['/'] + relative }
}

fn join_below(home: &str, relative: &str) -> (r: String)
    ensures
        r@ == below_home(home@, relative@),
{
    let cs = chars_of(home);
    let mut out: Vec<char> = Vec::new();
    push_str_chars(&mut out, home);
    if !(cs.len() == 0 || cs[cs.len() - 1] == '/') {
        out.push('/');
    }
    push_str_chars(&mut out, relative);
    proof {
        if cs@.len() == 0 || cs@.last() == '/' {
            assert(out@ =~= home@ + relative@);
        } else {
            assert(out@ =~= home@ + seq!['/'] + relative@);
        }
    }
    into_string(out)
}

/// The audit log of a Wardian home.
pub fn audit_log_path(home: &str) -> (r: String)
    ensures
        r@ == below_home(home@, AUDIT_LOG_FILE@),
{
    join_below(home, AUDIT_LOG_FILE)
}

/// Where a rotated log is kept.
pub fn audit_log_archive_path(home: &str) -> (r: String)
    ensures
        r@ == below_home(home@, AUDIT_LOG_ARCHIVE_FILE@),
{
    join_below(home, AUDIT_LOG_ARCHIVE_FILE)
}

/// What one append writes: the record's JSON text and a line feed, so the
/// log holds one record per line.
pub fn audit_line(record_json: &str) -> (r: Vec<u8>)
    ensures
        r@ == vstd::utf8::encode_utf8(record_json@) + seq![10u8],
{
    let bytes = record_json.as_bytes();
    let mut out: Vec<u8> = Vec::new();
    let mut i: usize = 0;
    while i < bytes.len()
        invariant
            i <= bytes@.len(),
            bytes@ == vstd::utf8::encode_utf8(record_json@),
            out@ == bytes@.take(i as int),
        decreases bytes@.len() - i,
    {
        out.push(bytes[i]);
        assert(bytes@.take(i + 1) =~= bytes@.take(i as int).push(bytes@[i as int]));
        i = i + 1;
    }
    assert(bytes@.take(bytes@.len() as int) =~= bytes@);
    out.push(10u8);
    out
}

} // verus!
