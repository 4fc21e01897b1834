//! The wall-clock time source: the one place the library reads the system
//! clock, and the check that the reading is not earlier than the reference
//! epoch.

use crate::{HoraError, EPOCH};
use vstd::prelude::*;

verus! {

/// Relies on `std::time::SystemTime::now`: the current wall-clock time, taken
/// as whole milliseconds since the Unix epoch. Nothing is assumed of the
/// reading; callers must handle every value. A clock before the Unix epoch is
/// reported as 0.
#[verifier::external_body]
pub(crate) fn now_unix_millis() -> u64 {
    match std::time::SystemTime::now().duration_since(std::time::UNIX_EPOCH) {
        Ok(d) => d.as_millis() as u64,
        Err(_) => 0,
    }
}

/// Turn a wall-clock reading (milliseconds since the Unix epoch) into an
/// offset from the reference epoch, refusing any reading earlier than the
/// reference epoch.
pub fn epoch_from_unix_millis(now: u64) -> (r: Result<u64, HoraError>)
    ensures
        match r {
            Ok(v) => now >= EPOCH && v == now - EPOCH,
            Err(e) => now < EPOCH && e == HoraError::Clock,
        },
{
    if now < EPOCH {
        Err(HoraError::Clock)
    } else {
        Ok(now - EPOCH)
    }
}

/// The current offset from the reference epoch, in milliseconds; an error if
/// the system clock reads earlier than the reference epoch.
pub(crate) fn current_epoch() -> (r: Result<u64, HoraError>)
    ensures
        r is Err ==> r == Err::<u64, HoraError>(HoraError::Clock),
{
    epoch_from_unix_millis(now_unix_millis())
}

} // verus!
