//! Wall-clock access for the performance records.

use vstd::prelude::*;

verus! {

/// Relies on chrono's `Utc::now` / `DateTime::timestamp_millis`: the
/// current wall-clock time in milliseconds since the Unix epoch. The
/// value depends on the machine's clock, so nothing is assumed of it.
#[verifier::external_body]
pub(crate) fn now_millis() -> i64 {
    chrono::Utc::now().timestamp_millis()
}

} // verus!
