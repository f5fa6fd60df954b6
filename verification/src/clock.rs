//! Readings of the machine's clock.
use vstd::prelude::*;

verus! {

/// The seconds since the Unix epoch on the clock of the machine
/// (`SystemTime::now`, `duration_since(UNIX_EPOCH)`, `as_secs`); nothing
/// where the clock is set before the epoch. The result depends on the
/// clock, so no clause states it.
#[verifier::external_body]
pub(crate) fn seconds_since_epoch() -> Option<u64> {
    match std::time::SystemTime::now().duration_since(std::time::UNIX_EPOCH) {
        Ok(d) => Some(d.as_secs()),
        Err(_) => None,
    }
}

/// The milliseconds since the Unix epoch on the clock of the machine
/// (`SystemTime::now`, `duration_since(UNIX_EPOCH)`, `as_millis`); nothing
/// where the clock is set before the epoch. The result depends on the
/// clock, so no clause states it.
#[verifier::external_body]
pub(crate) fn millis_since_epoch() -> Option<u128> {
    match std::time::SystemTime::now().duration_since(std::time::UNIX_EPOCH) {
        Ok(d) => Some(d.as_millis()),
        Err(_) => None,
    }
}

} // verus!
