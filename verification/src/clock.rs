//! The wall clock.

use vstd::prelude::*;

verus! {

/// `Utc::now()` of chrono, written as year, month, day, hour, minute and
/// second. The text depends on the clock, so nothing is claimed of it.
/// chrono panics where the system clock stands before 1970.
#[verifier::external_body]
pub(crate) fn current_timestamp() -> (stamp: String) {
    chrono::Utc::now().format("%Y-%m-%d %H:%M:%S").to_string()
}

} // verus!
