//! Points in time.

use vstd::prelude::*;

verus! {

/// A point in time, in nanoseconds after a fixed start that all points share.
#[derive(Debug, Clone, Copy, PartialEq, Eq, Structural)]
pub struct Timestamp {
    pub nanos: u64,
}

impl Timestamp {
    /// The whole milliseconds from `earlier` to this point; none where `earlier` is not earlier.
    pub open spec fn spec_millis_since(self, earlier: Timestamp) -> nat {
        if self.nanos >= earlier.nanos {
            ((self.nanos - earlier.nanos) / 1_000_000) as nat
        } else {
            0
        }
    }

    /// The whole milliseconds from `earlier` to this point; none where `earlier` is not earlier.
    pub fn millis_since(self, earlier: Timestamp) -> (r: u64)
        ensures
            r == self.spec_millis_since(earlier),
    {
        self.nanos.saturating_sub(earlier.nanos) / 1_000_000
    }

    /// The nanoseconds from `earlier` to this point; none where `earlier` is not earlier.
    pub open spec fn spec_nanos_since(self, earlier: Timestamp) -> u64 {
        if self.nanos >= earlier.nanos {
            (self.nanos - earlier.nanos) as u64
        } else {
            0
        }
    }

    /// The nanoseconds from `earlier` to this point; none where `earlier` is not earlier.
    pub fn nanos_since(self, earlier: Timestamp) -> (r: u64)
        ensures
            r == self.spec_nanos_since(earlier),
    {
        self.nanos.saturating_sub(earlier.nanos)
    }

    /// Whether this point comes after `other`.
    pub fn is_after(self, other: Timestamp) -> (r: bool)
        ensures
            r == (self.nanos > other.nanos),
    {
        self.nanos > other.nanos
    }
}

/// Milliseconds are counted whole: so many of a million nanoseconds each have passed, and no more;
/// none pass backwards.
pub proof fn law_whole_milliseconds(earlier: Timestamp, later: Timestamp)
    ensures
        earlier.nanos <= later.nanos ==> {
            let passed = later.nanos - earlier.nanos;
            &&& later.spec_nanos_since(earlier) == passed
            &&& later.spec_millis_since(earlier) * 1_000_000 <= passed
            &&& passed < (later.spec_millis_since(earlier) + 1) * 1_000_000
            &&& earlier.spec_nanos_since(later) == 0
            &&& earlier.spec_millis_since(later) == 0
        },
{
}

} // verus!
