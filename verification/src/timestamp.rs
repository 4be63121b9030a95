//! Points in time, as the job records hold them.

use vstd::prelude::*;

verus! {

/// A point in time: the whole seconds since 1970-01-01 00:00:00 UTC and the
/// nanoseconds into that second.
#[derive(Debug, Clone, Copy, PartialEq, Eq, Structural)]
pub struct Timestamp {
    pub secs: i64,
    pub nanos: u32,
}

impl Timestamp {
    /// `self` is the same instant as `other` or a later one.
    pub open spec fn spec_not_before(self, other: Timestamp) -> bool {
        self.secs > other.secs || (self.secs == other.secs && self.nanos >= other.nanos)
    }

    /// Whether `self` is the same instant as `other` or a later one.
    #[verifier::when_used_as_spec(spec_not_before)]
    pub fn not_before(self, other: Timestamp) -> (later: bool)
        ensures
            later == self.spec_not_before(other),
    {
        self.secs > other.secs || (self.secs == other.secs && self.nanos >= other.nanos)
    }
}

/// Reads the system clock with `chrono::Utc::now` and keeps the reading as
/// seconds and nanoseconds, which is what `DateTime::timestamp` and
/// `DateTime::timestamp_subsec_nanos` give for it.
///
/// Nothing is claimed of the reading: a system clock may be set back, so two
/// readings need not be in order. `Utc::now` stops the program if the
/// system clock stands before 1970.
#[verifier::external_body]
pub(crate) fn utc_now() -> (now: Timestamp) {
    let now = chrono::Utc::now();
    Timestamp { secs: now.timestamp(), nanos: now.timestamp_subsec_nanos() }
}

} // verus!
