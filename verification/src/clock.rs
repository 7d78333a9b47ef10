use std::time::SystemTime;
use std::time::UNIX_EPOCH;
use vstd::prelude::*;

verus! {

/// Relies on `std::time::SystemTime::now` and `duration_since`: the wall
/// clock in whole seconds since the Unix epoch, `0` for a clock set before
/// it. Nothing is promised of the reading; every function that depends on
/// the time takes it as a plain argument and is verified for all of them.
#[verifier::external_body]
pub fn now() -> u64 {
    match SystemTime::now().duration_since(UNIX_EPOCH) {
        Ok(d) => d.as_secs(),
        Err(_) => 0,
    }
}

} // verus!
