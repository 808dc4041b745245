//! Readings of the wall clock, in whole seconds since the Unix epoch. A
//! reading is made only by reading the clock: nothing else in the library
//! can make one, so a value computed from a reading is computed from the
//! time the clock gave.

use vstd::prelude::*;

verus! {

/// A reading of the wall clock: whole seconds since the Unix epoch.
#[derive(Clone, Copy, Debug)]
pub struct UnixTime {
    secs: u64,
}

impl UnixTime {
    /// The seconds since the Unix epoch that the clock read.
    pub closed spec fn secs_spec(&self) -> u64 {
        self.secs
    }

    /// The seconds since the Unix epoch that the clock read.
    pub fn secs(&self) -> (r: u64)
        ensures
            r == self.secs_spec(),
    {
        self.secs
    }
}

/// Whole seconds from the Unix epoch to now
/// (`SystemTime::now().duration_since(UNIX_EPOCH)`), or an error where the
/// clock is set before the epoch. Nothing is stated of the value: it comes
/// from the clock.
#[verifier::external_body]
pub(crate) fn unix_time_secs() -> (r: Result<UnixTime, std::time::SystemTimeError>) {
    match std::time::SystemTime::now().duration_since(std::time::UNIX_EPOCH) {
        Ok(d) => Ok(UnixTime { secs: d.as_secs() }),
        Err(e) => Err(e),
    }
}

} // verus!
