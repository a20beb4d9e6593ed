//! The system clock, read where the library needs the current time.
use vstd::prelude::*;

verus! {

/// Reads the system clock, in seconds since the Unix epoch (0 for a clock set
/// before it). Calls `std::time::SystemTime::now`; nothing is promised of the
/// value, which depends on the clock.
#[verifier::external_body]
pub(crate) fn unix_time_now() -> u64 {
    match std::time::SystemTime::now().duration_since(std::time::UNIX_EPOCH) {
        Ok(d) => d.as_secs(),
        Err(_) => 0,
    }
}

} // verus!
