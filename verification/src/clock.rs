//! Points in time.

use vstd::prelude::*;

verus! {

/// A point in time: whole seconds since the start of 1970 in UTC, leap
/// seconds not counted, and the nanoseconds past that second.
#[derive(Clone, Copy, Debug, PartialEq, Eq, Structural)]
pub struct Timestamp {
    pub seconds: i64,
    pub nanoseconds: u32,
}

impl Timestamp {
    /// The nanoseconds stay below one second, as they do for every reading
    /// of the clock.
    pub open spec fn is_reading(&self) -> bool {
        self.seconds >= 0 && self.nanoseconds < 1_000_000_000
    }

    /// The time on the system clock.
    pub fn now() -> (t: Timestamp)
        ensures
            t.is_reading(),
    {
        utc_now()
    }
}

/// `chrono::Utc::now()`, taken apart by `DateTime::timestamp` and
/// `DateTime::timestamp_subsec_nanos`. The time comes from the system clock as
/// a duration since the start of 1970, so the seconds are not negative and
/// the nanoseconds are those of a duration, below one second. Nothing is
/// claimed of which time it is. `Utc::now` panics where the system clock
/// stands before 1970.
#[verifier::external_body]
fn utc_now() -> (t: Timestamp)
    ensures
        t.seconds >= 0,
        t.nanoseconds < 1_000_000_000,
{
    let now = chrono::Utc::now();
    Timestamp { seconds: now.timestamp(), nanoseconds: now.timestamp_subsec_nanos() }
}

} // verus!
