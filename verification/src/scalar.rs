//! Real-valued readings, held exactly and compared as the readings compare.
use vstd::prelude::*;

verus! {

/// A real-valued reading in double precision, held as the integer that orders it among all
/// readings: the bits of the value where its sign is clear, and the bits with all but the sign
/// flipped where it is set.
#[derive(Clone, Copy, Debug, PartialEq, Eq, PartialOrd, Ord, Hash, Structural)]
pub struct Scalar {
    pub key: i64,
}

/// The key of positive infinity.
pub const INFINITY_KEY: i64 = 0x7ff0_0000_0000_0000;
/// The key of negative infinity.
pub const NEGATIVE_INFINITY_KEY: i64 = -9_218_868_437_227_405_313;
/// The key of negative zero. That of zero is zero.
pub const NEGATIVE_ZERO_KEY: i64 = -1;
/// The key of ten.
pub const TEN_KEY: i64 = 0x4024_0000_0000_0000;
/// The key of fifty.
pub const FIFTY_KEY: i64 = 0x4049_0000_0000_0000;
/// The key of one hundred.
pub const HUNDRED_KEY: i64 = 0x4059_0000_0000_0000;

impl Scalar {
    /// The reading is no number.
    pub open spec fn nan(self) -> bool {
        self.key > INFINITY_KEY || self.key < NEGATIVE_INFINITY_KEY
    }

    /// The place of the reading among all numbers, where the two zeros are one.
    pub open spec fn rank(self) -> int {
        if self.key == NEGATIVE_ZERO_KEY {
            0
        } else {
            self.key as int
        }
    }

    /// Both readings are numbers and this one is not less.
    pub open spec fn at_least(self, other: Scalar) -> bool {
        !self.nan() && !other.nan() && self.rank() >= other.rank()
    }

    /// Both readings are numbers and this one is less.
    pub open spec fn below(self, other: Scalar) -> bool {
        !self.nan() && !other.nan() && self.rank() < other.rank()
    }

    fn is_nan(self) -> (yes: bool)
        ensures
            yes == self.nan(),
    {
        self.key > INFINITY_KEY || self.key < NEGATIVE_INFINITY_KEY
    }

    fn ranked(self) -> (rank: i64)
        ensures
            rank == self.rank(),
    {
        if self.key == NEGATIVE_ZERO_KEY {
            0
        } else {
            self.key
        }
    }

    pub fn is_at_least(self, other: Scalar) -> (yes: bool)
        ensures
            yes == self.at_least(other),
    {
        !self.is_nan() && !other.is_nan() && self.ranked() >= other.ranked()
    }

    pub fn is_below(self, other: Scalar) -> (yes: bool)
        ensures
            yes == self.below(other),
    {
        !self.is_nan() && !other.is_nan() && self.ranked() < other.ranked()
    }

    /// The reading is a share in percent.
    pub open spec fn percentage(self) -> bool {
        0 <= self.rank() <= HUNDRED_KEY
    }

    /// The reading is finite and more than zero.
    pub open spec fn finite_positive(self) -> bool {
        0 < self.key < INFINITY_KEY
    }

    pub fn is_percentage(self) -> (yes: bool)
        ensures
            yes == self.percentage(),
    {
        0 <= self.ranked() && self.ranked() <= HUNDRED_KEY
    }

    pub fn is_finite_positive(self) -> (yes: bool)
        ensures
            yes == self.finite_positive(),
    {
        0 < self.key && self.key < INFINITY_KEY
    }
}

} // verus!
