//! Four 64-bit lanes that are advanced together.
//!
//! The lanes stand for one 256-bit register split into four independent
//! 64-bit integers: every operation acts on each lane alone, and no bit ever
//! crosses from one lane into another.

use vstd::prelude::*;
use vstd::wrapping::u64_specs::wrapping_add;

verus! {

/// Four independent 64-bit accumulators.
#[derive(Clone, Copy, Debug, PartialEq, Eq, Structural)]
pub struct Lanes {
    pub lane0: u64,
    pub lane1: u64,
    pub lane2: u64,
    pub lane3: u64,
}

impl Lanes {
    /// All four lanes cleared.
    pub fn zero() -> (lanes: Lanes)
        ensures
            lanes == (Lanes { lane0: 0, lane1: 0, lane2: 0, lane3: 0 }),
    {
        Lanes { lane0: 0, lane1: 0, lane2: 0, lane3: 0 }
    }

    /// Lanes holding the four given values, in lane order.
    pub fn new(lane0: u64, lane1: u64, lane2: u64, lane3: u64) -> (lanes: Lanes)
        ensures
            lanes == (Lanes { lane0, lane1, lane2, lane3 }),
    {
        Lanes { lane0, lane1, lane2, lane3 }
    }

    /// The lanes after each has been shifted left by `count` bits.
    pub open spec fn shifted_left(self, count: u64) -> Lanes {
        Lanes {
            lane0: self.lane0 << count,
            lane1: self.lane1 << count,
            lane2: self.lane2 << count,
            lane3: self.lane3 << count,
        }
    }

    /// The lane-wise sum modulo 2^64.
    pub open spec fn plus(self, other: Lanes) -> Lanes {
        Lanes {
            lane0: wrapping_add(self.lane0, other.lane0),
            lane1: wrapping_add(self.lane1, other.lane1),
            lane2: wrapping_add(self.lane2, other.lane2),
            lane3: wrapping_add(self.lane3, other.lane3),
        }
    }

    /// Shifts all four lanes left by the same number of bits at once.
    pub fn shift_left(self, count: u64) -> (lanes: Lanes)
        requires
            count < 64,
        ensures
            lanes == self.shifted_left(count),
    {
        Lanes {
            lane0: self.lane0 << count,
            lane1: self.lane1 << count,
            lane2: self.lane2 << count,
            lane3: self.lane3 << count,
        }
    }

    /// Adds `other` to `self` lane by lane, each sum wrapping on its own.
    pub fn wrapping_add(self, other: Lanes) -> (lanes: Lanes)
        ensures
            lanes == self.plus(other),
    {
        Lanes {
            lane0: self.lane0.wrapping_add(other.lane0),
            lane1: self.lane1.wrapping_add(other.lane1),
            lane2: self.lane2.wrapping_add(other.lane2),
            lane3: self.lane3.wrapping_add(other.lane3),
        }
    }

    /// The four lanes as a tuple, in lane order.
    pub fn into_tuple(self) -> (lanes: (u64, u64, u64, u64))
        ensures
            lanes == (self.lane0, self.lane1, self.lane2, self.lane3),
    {
        (self.lane0, self.lane1, self.lane2, self.lane3)
    }
}

} // verus!
