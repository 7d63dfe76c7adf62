//! Points in time as plain values.

use vstd::prelude::*;

verus! {

/// A point in time: whole seconds since the Unix epoch and the nanoseconds
/// within that second. Ordering is lexicographic on `(secs, nanos)`.
#[derive(Clone, Copy, Debug, PartialEq, Eq, Structural)]
pub struct Timestamp {
    pub secs: i64,
    pub nanos: u32,
}

impl Timestamp {
    /// `self` lies strictly before `other`.
    pub open spec fn before(self, other: Timestamp) -> bool {
        self.secs < other.secs || (self.secs == other.secs && self.nanos < other.nanos)
    }

    /// `self` is no older than `window` seconds at the instant `now`:
    /// `self >= now - window`.
    pub open spec fn within(self, now: Timestamp, window: int) -> bool {
        self.secs > now.secs - window || (self.secs == now.secs - window && self.nanos
            >= now.nanos)
    }

    pub fn new(secs: i64, nanos: u32) -> (t: Timestamp)
        ensures
            t == (Timestamp { secs, nanos }),
    {
        Timestamp { secs, nanos }
    }

    pub fn is_before(&self, other: &Timestamp) -> (b: bool)
        ensures
            b == self.before(*other),
    {
        self.secs < other.secs || (self.secs == other.secs && self.nanos < other.nanos)
    }

    /// The instant `seconds` after `self`; the seconds stop at `i64::MAX`.
    pub open spec fn later_by(self, seconds: u32) -> Timestamp {
        Timestamp {
            secs: if self.secs + seconds > i64::MAX {
                i64::MAX
            } else {
                (self.secs + seconds) as i64
            },
            nanos: self.nanos,
        }
    }

    /// The instant `seconds` after `self`.
    pub fn plus_seconds(&self, seconds: u32) -> (t: Timestamp)
        ensures
            t == self.later_by(seconds),
    {
        let sum: i128 = self.secs as i128 + seconds as i128;
        Timestamp {
            secs: if sum > i64::MAX as i128 {
                i64::MAX
            } else {
                sum as i64
            },
            nanos: self.nanos,
        }
    }

    /// Whether `self` falls inside the window of `window_seconds` that ends at `now`.
    pub fn is_within(&self, now: &Timestamp, window_seconds: u32) -> (b: bool)
        ensures
            b == self.within(*now, window_seconds as int),
    {
        let cutoff: i128 = now.secs as i128 - window_seconds as i128;
        let secs: i128 = self.secs as i128;
        secs > cutoff || (secs == cutoff && self.nanos >= now.nanos)
    }
}

} // verus!

verus! {

/// Reads the wall clock.
///
/// Calls `chrono::Local::now().naive_utc()` and hands back its seconds since
/// the epoch and the nanoseconds within the second. Nothing is claimed of the
/// result: two calls may return anything, in any order.
#[verifier::external_body]
pub(crate) fn current_time() -> (now: Timestamp) {
    let now = chrono::Local::now().naive_utc().and_utc();
    Timestamp { secs: now.timestamp(), nanos: now.timestamp_subsec_nanos() }
}

} // verus!
