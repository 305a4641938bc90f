//! Instants written as RFC 3339 text, as records and queues carry them.
use vstd::prelude::*;

verus! {

/// The instant `chrono::DateTime::parse_from_rfc3339` reads from a text: its
/// `timestamp()` seconds and `timestamp_subsec_nanos()`.
pub uninterp spec fn rfc3339_instant(value: Seq<char>) -> Option<(i64, u32)>;

/// Calls `chrono::DateTime::parse_from_rfc3339` and, when the text parses,
/// takes its `timestamp()` and `timestamp_subsec_nanos()`; the result is
/// named `rfc3339_instant`.
#[verifier::external_body]
fn parse_rfc3339(value: &str) -> (r: Option<(i64, u32)>)
    ensures
        r == rfc3339_instant(value@),
{
    chrono::DateTime::parse_from_rfc3339(value).ok().map(|parsed| (parsed.timestamp(), parsed.timestamp_subsec_nanos()))
}

/// An instant's milliseconds since the epoch, as `timestamp_millis()` counts them.
pub open spec fn instant_millis(instant: (i64, u32)) -> int {
    instant.0 * 1000 + instant.1 / 1_000_000
}

/// `a` is not later than `b`.
pub open spec fn instant_le(a: (i64, u32), b: (i64, u32)) -> bool {
    a.0 < b.0 || (a.0 == b.0 && a.1 <= b.1)
}

/// The milliseconds of an RFC 3339 time, when it parses and they fit an `i64`.
pub fn rfc3339_millis(value: &str) -> (r: Option<i64>)
    ensures
        match rfc3339_instant(value@) {
            Some(instant) => if i64::MIN <= instant_millis(instant) <= i64::MAX {
                r == Some(instant_millis(instant) as i64)
            } else {
                r is None
            },
            None => r is None,
        },
{
    match parse_rfc3339(value) {
        Some((secs, nanos)) => {
            let wide: i128 = (secs as i128) * 1000 + ((nanos / 1_000_000) as i128);
            if i64::MIN as i128 <= wide && wide <= i64::MAX as i128 {
                Some(wide as i64)
            } else {
                None
            }
        },
        None => None,
    }
}

/// Whether the first time is not later than the second; when one does not
/// parse, `Err(true)` for the first and `Err(false)` for the second.
pub fn rfc3339_not_after(a: &str, b: &str) -> (r: Result<bool, bool>)
    ensures
        rfc3339_instant(a@) is None ==> r == Err::<bool, bool>(true),
        rfc3339_instant(a@) is Some && rfc3339_instant(b@) is None ==> r == Err::<bool, bool>(false),
        rfc3339_instant(a@) is Some && rfc3339_instant(b@) is Some
            ==> r == Ok::<bool, bool>(instant_le(rfc3339_instant(a@)->0, rfc3339_instant(b@)->0)),
{
    let x = match parse_rfc3339(a) {
        Some(x) => x,
        None => return Err(true),
    };
    let y = match parse_rfc3339(b) {
        Some(y) => y,
        None => return Err(false),
    };
    Ok(x.0 < y.0 || (x.0 == y.0 && x.1 <= y.1))
}

} // verus!
