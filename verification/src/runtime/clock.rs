//! The wall clock, read in milliseconds since the UNIX epoch.
use vstd::prelude::*;

verus! {

/// Calls `SystemTime::now`, taken as milliseconds since the UNIX epoch (0 for a clock set
/// before the epoch). Nothing is stated of the result: it is the time.
#[verifier::external_body]
pub(crate) fn now_unix_millis() -> (r: u64) {
    match std::time::SystemTime::now().duration_since(std::time::UNIX_EPOCH) {
        Ok(elapsed) => elapsed.as_millis() as u64,
        Err(_) => 0,
    }
}

} // verus!
