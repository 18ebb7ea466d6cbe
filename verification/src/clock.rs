//! The wall clock, read in one place.

use vstd::prelude::*;

verus! {

/// Calls `chrono::Local::now` and `DateTime::timestamp_millis`: the
/// milliseconds since the Unix epoch on this machine's clock. Nothing is
/// claimed of the number: the clock may be set forward or back.
#[verifier::external_body]
pub(crate) fn current_time_millis() -> i64 {
    chrono::Local::now().timestamp_millis()
}

} // verus!
