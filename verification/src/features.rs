//! Scheduler policy switches, as a set of flags in one word.

use vstd::prelude::*;

verus! {

/// A set of policy switches.
#[derive(Clone, Copy, Debug, PartialEq, Eq, Structural)]
pub struct SchedFeatures {
    bits: u32,
}

impl View for SchedFeatures {
    type V = u32;

    closed spec fn view(&self) -> u32 {
        self.bits
    }
}

impl SchedFeatures {
    /// Only give sleepers 50% of their service deficit. This allows them to
    /// run sooner, but does not allow tons of sleepers to rip the spread
    /// apart.
    pub const GENTLE_FAIR_SLEEPERS: u32 = 0b0000_0001;

    /// Place new tasks ahead so that they do not starve already running
    /// tasks.
    pub const START_DEBIT: u32 = 0b0000_0010;

    /// Prefer to schedule the task that was woken last.
    pub const NEXT_BUDDY: u32 = 0b0000_0100;

    /// Prefer to schedule the task that ran last.
    pub const LAST_BUDDY: u32 = 0b0000_1000;

    /// Consider buddies to be cache hot.
    pub const CACHE_HOT_BUDDY: u32 = 0b0001_0000;

    /// Allow wakeup-time preemption of the current task.
    pub const WAKEUP_PREEMPTION: u32 = 0b0010_0000;

    /// The switches that are on unless chosen otherwise: all but
    /// `NEXT_BUDDY`.
    pub closed spec fn defaults() -> SchedFeatures {
        SchedFeatures { bits: 0b0011_1011 }
    }

    /// The switches that are on unless chosen otherwise: all but
    /// `NEXT_BUDDY`.
    pub fn new() -> (features: SchedFeatures)
        ensures
            features == Self::defaults(),
            features@ == 0b0011_1011u32,
    {
        SchedFeatures { bits: 0b0011_1011 }
    }

    /// No switch.
    pub fn empty() -> (features: SchedFeatures)
        ensures
            features@ == 0,
    {
        SchedFeatures { bits: 0 }
    }

    /// The flags as one word.
    pub fn bits(self) -> (bits: u32)
        ensures
            bits == self@,
    {
        self.bits
    }

    /// The switches of the word `bits`; bits that are no switch are dropped.
    pub fn from_bits_truncate(bits: u32) -> (features: SchedFeatures)
        ensures
            features@ == bits & 0b0011_1111u32,
    {
        SchedFeatures { bits: bits & 0b0011_1111 }
    }

    /// Whether every switch of `flags` is on in `self`.
    pub open spec fn spec_contains(self, flags: u32) -> bool {
        self@ & flags == flags
    }

    /// Whether every switch of `flags` is on in `self`.
    pub fn contains(self, flags: u32) -> (b: bool)
        ensures
            b == self.spec_contains(flags),
    {
        (self.bits & flags) == flags
    }

    /// `self` with the switches of `flags` on as well.
    pub fn with(self, flags: u32) -> (features: SchedFeatures)
        ensures
            features@ == self@ | flags,
    {
        SchedFeatures { bits: self.bits | flags }
    }

    /// `self` with the switches of `flags` off.
    pub fn without(self, flags: u32) -> (features: SchedFeatures)
        ensures
            features@ == self@ & !flags,
    {
        SchedFeatures { bits: self.bits & !flags }
    }
}

impl Default for SchedFeatures {
    fn default() -> (features: SchedFeatures)
        ensures
            features == SchedFeatures::defaults(),
            features@ == 0b0011_1011u32,
    {
        SchedFeatures::new()
    }
}

} // verus!
