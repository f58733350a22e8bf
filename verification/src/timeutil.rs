//! Clock access through the `chrono` crate.

use vstd::prelude::*;

verus! {

/// Relies on chrono's `Utc::now` and `DateTime::timestamp_millis`: the
/// present moment as milliseconds since the Unix epoch. The result
/// depends on the system clock, so nothing is promised of it. Panics
/// only when the clock stands before the Unix epoch.
#[verifier::external_body]
pub(crate) fn now_timestamp_millis() -> i64 {
    chrono::Utc::now().timestamp_millis()
}

} // verus!
