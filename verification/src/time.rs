//! Readings of a monotonic clock.

use vstd::prelude::*;

verus! {

/// A reading of a monotonic clock, in nanoseconds from a fixed start.
#[derive(Clone, Copy, Debug, PartialEq)]
pub struct Instant {
    pub nanos: u64,
}

impl Instant {
    /// The reading `nanos` nanoseconds later.
    pub open spec fn later_spec(self, nanos: u64) -> Instant {
        Instant { nanos: (self.nanos + nanos) as u64 }
    }

    /// The reading `nanos` nanoseconds later.
    pub fn later(self, nanos: u64) -> (r: Instant)
        requires
            self.nanos + nanos <= u64::MAX,
        ensures
            r == self.later_spec(nanos),
    {
        Instant { nanos: self.nanos + nanos }
    }

    /// Whether this reading comes before `other`.
    pub open spec fn before_spec(self, other: Instant) -> bool {
        self.nanos < other.nanos
    }

    /// Whether this reading comes before `other`.
    pub fn before(self, other: Instant) -> (r: bool)
        ensures
            r == self.before_spec(other),
    {
        self.nanos < other.nanos
    }
}

} // verus!
