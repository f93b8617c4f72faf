//! Time text for rendered events. The calendar arithmetic and the wording
//! of relative times belong to outside crates; their results are named here
//! and every caller's contract speaks of those names.

use relativetime::RelativeTime;
use vstd::prelude::*;

verus! {

/// The RFC 3339 text of the moment `ms` milliseconds after the Unix epoch.
pub uninterp spec fn rfc3339_of(ms: u64) -> Seq<char>;

/// The relative-time phrase for a signed offset of `delta_ms` milliseconds
/// from the present (negative offsets lie in the past).
pub uninterp spec fn relative_of(delta_ms: i64) -> Seq<char>;

/// Relies on chrono's `DateTime::<Utc>::from_timestamp_millis` and
/// `to_rfc3339`: every timestamp the admitted bound allows (about 58,000
/// years, far inside the representable calendar range) converts, and its
/// RFC 3339 text depends on the timestamp alone.
#[verifier::external_body]
pub(crate) fn rfc3339_utc(ms: u64) -> (r: String)
    requires
        ms <= 0x68db8bac710cb,
    ensures
        r@ == rfc3339_of(ms),
{
    match chrono::DateTime::<chrono::Utc>::from_timestamp_millis(ms as i64) {
        Some(t) => t.to_rfc3339(),
        None => String::new(),
    }
}

/// Relies on relativetime's `RelativeTime` impl for `chrono::TimeDelta`:
/// the phrase depends only on the signed duration, here made from whole
/// milliseconds; `TimeDelta::milliseconds` accepts every value above
/// `i64::MIN`.
#[verifier::external_body]
pub(crate) fn relative_phrase(delta_ms: i64) -> (r: String)
    requires
        delta_ms > i64::MIN,
    ensures
        r@ == relative_of(delta_ms),
{
    chrono::TimeDelta::milliseconds(delta_ms).to_relative()
}

/// Relies on chrono's `Utc::now` and `timestamp_millis` to read the system
/// clock; nothing is promised of the value read.
#[verifier::external_body]
pub(crate) fn now_unix_ms() -> i64 {
    chrono::Utc::now().timestamp_millis()
}

} // verus!
