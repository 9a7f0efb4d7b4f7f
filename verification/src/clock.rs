//! Wall-clock time.

use vstd::prelude::*;

verus! {

/// Reads the system clock with `std::time::UNIX_EPOCH.elapsed()`: whole
/// seconds since the Unix epoch, `None` when the clock is set before it.
/// Nothing is stated of the value: it depends on the machine's clock.
#[verifier::external_body]
fn unix_time_secs() -> Option<u64> {
    match std::time::UNIX_EPOCH.elapsed() {
        Ok(d) => Some(d.as_secs()),
        Err(_) => None,
    }
}

/// Current unix time in seconds; 0 when the clock reads before the epoch.
pub fn now_secs() -> i64 {
    match unix_time_secs() {
        Some(s) => s as i64,
        None => 0,
    }
}

} // verus!
