//! Unsigned fixed-point numbers with 64 integer and 64 fractional bits.

use vstd::prelude::*;

verus! {

/// A number in steps of one part in two to the 64.
#[derive(Clone, Copy, PartialEq, Eq, Debug, Structural)]
pub struct U64F64 {
    pub bits: u128,
}

/// The bits of the number one.
pub open spec fn one_bits() -> int {
    0x1_0000_0000_0000_0000
}

/// The number with these bits, where they are in range.
pub open spec fn fit(bits: int) -> Option<U64F64> {
    if 0 <= bits <= u128::MAX {
        Some(U64F64 { bits: bits as u128 })
    } else {
        None
    }
}

/// An integer as a fixed-point number.
pub open spec fn whole(x: u64) -> U64F64 {
    U64F64 { bits: (x * one_bits()) as u128 }
}

/// The largest integer that is not above the number.
pub open spec fn floor(a: U64F64) -> u64 {
    (a.bits as int / one_bits()) as u64
}

pub open spec fn sum(a: U64F64, b: U64F64) -> Option<U64F64> {
    fit(a.bits + b.bits)
}

pub open spec fn difference(a: U64F64, b: U64F64) -> Option<U64F64> {
    fit(a.bits - b.bits)
}

/// The product, rounded down.
pub open spec fn product(a: U64F64, b: U64F64) -> Option<U64F64> {
    fit((a.bits * b.bits) / one_bits())
}

/// The quotient, rounded down.
pub open spec fn quotient(a: U64F64, b: U64F64) -> Option<U64F64> {
    if b.bits == 0 {
        None
    } else {
        fit((a.bits * one_bits()) / b.bits as int)
    }
}

impl U64F64 {
    /// `fixed::FixedU128::from_num` on a `u64`: the integer with no fractional
    /// part, which always fits.
    #[verifier::external_body]
    pub(crate) fn from_num(x: u64) -> (r: U64F64)
        ensures
            r == whole(x),
    {
        U64F64 { bits: fixed::types::U64F64::from_num(x).to_bits() }
    }

    /// `fixed::FixedU128::to_num` to a `u64`: drops the fractional bits.
    #[verifier::external_body]
    pub(crate) fn to_num(self) -> (r: u64)
        ensures
            r == floor(self),
    {
        fixed::types::U64F64::from_bits(self.bits).to_num::<u64>()
    }

    /// `fixed::FixedU128::checked_add`: the sum, or nothing on overflow.
    #[verifier::external_body]
    pub(crate) fn checked_add(self, rhs: U64F64) -> (r: Option<U64F64>)
        ensures
            r == sum(self, rhs),
    {
        fixed::types::U64F64::from_bits(self.bits)
            .checked_add(fixed::types::U64F64::from_bits(rhs.bits))
            .map(|v| U64F64 { bits: v.to_bits() })
    }

    /// `fixed::FixedU128::checked_sub`: the difference, or nothing where it is
    /// negative.
    #[verifier::external_body]
    pub(crate) fn checked_sub(self, rhs: U64F64) -> (r: Option<U64F64>)
        ensures
            r == difference(self, rhs),
    {
        fixed::types::U64F64::from_bits(self.bits)
            .checked_sub(fixed::types::U64F64::from_bits(rhs.bits))
            .map(|v| U64F64 { bits: v.to_bits() })
    }

    /// `fixed::FixedU128::checked_mul`: the product with the bits below the last
    /// fractional bit dropped, or nothing on overflow.
    #[verifier::external_body]
    pub(crate) fn checked_mul(self, rhs: U64F64) -> (r: Option<U64F64>)
        ensures
            r == product(self, rhs),
    {
        fixed::types::U64F64::from_bits(self.bits)
            .checked_mul(fixed::types::U64F64::from_bits(rhs.bits))
            .map(|v| U64F64 { bits: v.to_bits() })
    }

    /// `fixed::FixedU128::checked_div`: the quotient with the bits below the last
    /// fractional bit dropped, or nothing where the divisor is zero or on
    /// overflow.
    #[verifier::external_body]
    pub(crate) fn checked_div(self, rhs: U64F64) -> (r: Option<U64F64>)
        ensures
            r == quotient(self, rhs),
    {
        fixed::types::U64F64::from_bits(self.bits)
            .checked_div(fixed::types::U64F64::from_bits(rhs.bits))
            .map(|v| U64F64 { bits: v.to_bits() })
    }
}

} // verus!
