//! Double-precision numbers, held by their bit patterns.
//!
//! Weights and scores are stored, selected and compared here; arithmetic on
//! them is the caller's.

use vstd::prelude::*;

verus! {

/// The bit pattern of 1.0.
pub const ONE_BITS: u64 = 0x3ff0_0000_0000_0000;

/// The bit that holds the sign.
pub const SIGN_BIT: u64 = 0x8000_0000_0000_0000;

/// The bit pattern of positive infinity, above which a magnitude is not a number.
pub const INFINITY_BITS: u64 = 0x7ff0_0000_0000_0000;

/// An IEEE 754 binary64 number. `==` compares bit patterns, so that the two
/// zeros differ and a pattern that is not a number equals itself.
#[derive(Clone, Copy, Debug, PartialEq, Eq, Structural)]
pub struct Binary64 {
    pub bits: u64,
}

impl Binary64 {
    /// The place of the number in the order of all numbers: both zeros are at
    /// 0, and `a < b` where the place of `a` is less than that of `b`.
    pub open spec fn place(self) -> int {
        if self.bits < SIGN_BIT {
            self.bits as int
        } else {
            SIGN_BIT - self.bits
        }
    }

    /// Whether the pattern is not a number.
    pub open spec fn spec_is_nan(self) -> bool {
        self.place() > INFINITY_BITS || self.place() < -INFINITY_BITS
    }

    /// Whether the number is a zero of either sign.
    pub open spec fn spec_is_zero(self) -> bool {
        self.place() == 0
    }

    pub open spec fn spec_zero() -> Binary64 {
        Binary64 { bits: 0 }
    }

    pub open spec fn spec_one() -> Binary64 {
        Binary64 { bits: ONE_BITS }
    }

    /// The greater of two numbers; one that is not a number loses, and of
    /// equal ones the first wins.
    pub open spec fn spec_max(self, other: Binary64) -> Binary64 {
        if other.spec_is_nan() {
            self
        } else if self.spec_is_nan() || self.place() < other.place() {
            other
        } else {
            self
        }
    }

    /// 0.0
    pub fn zero() -> (r: Binary64)
        ensures
            r == Binary64::spec_zero(),
            r.spec_is_zero(),
    {
        Binary64 { bits: 0 }
    }

    /// 1.0
    pub fn one() -> (r: Binary64)
        ensures
            r == Binary64::spec_one(),
    {
        Binary64 { bits: ONE_BITS }
    }

    /// The place of the number in the order of all numbers.
    pub fn rank(self) -> (r: i64)
        ensures
            r == self.place(),
    {
        if self.bits < SIGN_BIT {
            self.bits as i64
        } else {
            -((self.bits - SIGN_BIT) as i64)
        }
    }

    pub fn is_nan(self) -> (r: bool)
        ensures
            r == self.spec_is_nan(),
    {
        let rank = self.rank();
        rank > INFINITY_BITS as i64 || rank < -(INFINITY_BITS as i64)
    }

    pub fn is_zero(self) -> (r: bool)
        ensures
            r == self.spec_is_zero(),
    {
        self.rank() == 0
    }

    /// The greater of two numbers, as IEEE 754 maxNum has it.
    pub fn max(self, other: Binary64) -> (r: Binary64)
        ensures
            r == self.spec_max(other),
    {
        if other.is_nan() {
            self
        } else if self.is_nan() || self.rank() < other.rank() {
            other
        } else {
            self
        }
    }
}

} // verus!
