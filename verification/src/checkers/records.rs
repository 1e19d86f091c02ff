//! Records kept between runs, with the time they were fetched.

use vstd::prelude::*;

verus! {

/// The age in seconds from which kept records are fetched anew.
pub const REFRESH_THRESHOLD: u64 = 7200;

/// Records, and when they were fetched.
pub struct Records<T> {
    /// Seconds since the epoch.
    pub timestamp: u64,
    pub records: Vec<T>,
}

/// Whether records fetched at `timestamp` are too old at `now`.
pub open spec fn outdated(timestamp: u64, now: u64) -> bool {
    now - REFRESH_THRESHOLD >= timestamp
}

impl<T> Records<T> {
    /// The records, fetched at `timestamp`.
    pub fn new(records: Vec<T>, timestamp: u64) -> (r: Records<T>)
        ensures
            r.timestamp == timestamp,
            r.records == records,
    {
        Records { timestamp, records }
    }

    /// Whether the records are too old to be used at `now`.
    pub fn is_outdated(&self, now: u64) -> (old: bool)
        ensures
            old == outdated(self.timestamp, now),
    {
        now >= REFRESH_THRESHOLD && now - REFRESH_THRESHOLD >= self.timestamp
    }
}

} // verus!
