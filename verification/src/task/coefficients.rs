//! The weights from which the urgency of a task is computed.

use vstd::prelude::*;

verus! {

/// An urgency weight: a single-precision number, carried as its IEEE 754
/// bit pattern so that it can be handed on and found again exactly.
#[derive(Debug, Clone, Copy, PartialEq, Eq, Structural)]
pub struct Weight(pub u32);

impl Weight {
    /// The integer by which weights are ordered. It grows with the number
    /// that the bit pattern encodes: negative numbers come before positive
    /// ones, and negative zero comes just before positive zero.
    pub open spec fn order_key(self) -> int {
        if self.0 < 0x8000_0000 {
            self.0 as int
        } else {
            -1 - (self.0 - 0x8000_0000)
        }
    }

    /// The weight zero: the bit pattern of positive zero.
    pub open spec fn spec_zero() -> Weight {
        Weight(0)
    }

    /// The weight zero.
    #[verifier::when_used_as_spec(spec_zero)]
    pub fn zero() -> (w: Weight)
        ensures
            w == Weight::spec_zero(),
    {
        Weight(0)
    }

    /// The weight with the given bit pattern.
    pub fn from_bits(bits: u32) -> (w: Weight)
        ensures
            w == Weight(bits),
    {
        Weight(bits)
    }

    /// The bit pattern of this weight.
    pub fn to_bits(self) -> (bits: u32)
        ensures
            bits == self.0,
    {
        self.0
    }

    /// The integer by which this weight is ordered.
    pub fn sort_key(self) -> (key: i32)
        ensures
            key == self.order_key(),
    {
        if self.0 < 0x8000_0000 {
            self.0 as i32
        } else {
            let magnitude: u32 = self.0 - 0x8000_0000;
            -1 - (magnitude as i32)
        }
    }

    /// Two weights with the same key are the same weight.
    pub proof fn lemma_order_key_injective(a: Weight, b: Weight)
        requires
            a.order_key() == b.order_key(),
        ensures
            a == b,
    {
    }
}

/// The urgency weight of each priority level.
#[derive(Debug, Clone, Copy)]
pub struct Priority {
    /// The weight of priority 1.
    pub p1: Weight,
    /// The weight of priority 2.
    pub p2: Weight,
    /// The weight of priority 3.
    pub p3: Weight,
}

/// The bit pattern of the default weight of priority 1, six.
pub const DEFAULT_WEIGHT_1: u32 = 0x40C0_0000;

/// The bit pattern of the default weight of priority 2, three and nine tenths.
pub const DEFAULT_WEIGHT_2: u32 = 0x4079_999A;

/// The bit pattern of the default weight of priority 3, one and eight tenths.
pub const DEFAULT_WEIGHT_3: u32 = 0x3FE6_6666;

impl Default for Priority {
    fn default() -> (weights: Self)
        ensures
            weights.p1 == Weight(DEFAULT_WEIGHT_1),
            weights.p2 == Weight(DEFAULT_WEIGHT_2),
            weights.p3 == Weight(DEFAULT_WEIGHT_3),
    {
        Priority { p1: Weight(DEFAULT_WEIGHT_1), p2: Weight(DEFAULT_WEIGHT_2), p3: Weight(DEFAULT_WEIGHT_3) }
    }
}

/// Coefficients for calculating task urgency.
#[derive(Debug, Clone, Copy)]
pub struct Coefficients {
    /// The urgency coefficients for task priority.
    pub priority: Priority,
}

impl Default for Coefficients {
    fn default() -> (coefficients: Self)
        ensures
            coefficients.priority.p1 == Weight(DEFAULT_WEIGHT_1),
            coefficients.priority.p2 == Weight(DEFAULT_WEIGHT_2),
            coefficients.priority.p3 == Weight(DEFAULT_WEIGHT_3),
    {
        Coefficients { priority: Priority::default() }
    }
}

} // verus!
