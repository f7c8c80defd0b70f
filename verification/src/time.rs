//! Instants on the UTC time line, as the engine compares them.

use vstd::prelude::*;

verus! {

/// An instant: whole seconds since the Unix epoch and the nanoseconds into
/// that second. During a leap second `nanos` may run up to 1_999_999_999;
/// instants are ordered by seconds first, then by nanoseconds.
#[derive(Clone, Copy, Debug, PartialEq, Eq, Hash, Structural)]
pub struct Timestamp {
    pub secs: i64,
    pub nanos: u32,
}

impl Timestamp {
    /// `self` lies strictly later than `other`.
    pub open spec fn after(self, other: Timestamp) -> bool {
        self.secs > other.secs || (self.secs == other.secs && self.nanos > other.nanos)
    }

    pub fn new(secs: i64, nanos: u32) -> (t: Timestamp)
        ensures
            t.secs == secs,
            t.nanos == nanos,
    {
        Timestamp { secs, nanos }
    }

    /// Strict "later than" on two instants.
    pub fn is_after(&self, other: &Timestamp) -> (r: bool)
        ensures
            r == self.after(*other),
    {
        self.secs > other.secs || (self.secs == other.secs && self.nanos > other.nanos)
    }

    /// The current instant, read from `chrono::Utc::now` and split with
    /// `DateTime::timestamp` and `DateTime::timestamp_subsec_nanos`.
    /// Nothing is claimed of the value: it is the clock's. (chrono aborts
    /// when the system clock stands before the Unix epoch.)
    #[verifier::external_body]
    pub(crate) fn now() -> (t: Timestamp) {
        let t = chrono::Utc::now();
        Timestamp { secs: t.timestamp(), nanos: t.timestamp_subsec_nanos() }
    }
}

} // verus!
