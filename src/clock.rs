//! Wall-clock time, in milliseconds since the Unix epoch.
use vstd::prelude::*;

verus! {

/// Relies on `chrono::Utc::now` and `DateTime::timestamp_millis`: the
/// current time. `Utc::now` measures from the Unix epoch (and panics on a
/// clock set before it), and chrono's dates end in the year 262143, whose
/// milliseconds stay far below `i64::MAX`.
#[verifier::external_body]
pub(crate) fn now_millis() -> (r: i64)
    ensures
        0 <= r < i64::MAX,
{
    chrono::Utc::now().timestamp_millis()
}

} // verus!
