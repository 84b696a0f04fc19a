//! An 18-digit fixed-point decimal.
//!
//! A `Decimal` stands for the non-negative rational `atomics / 10^18`. All
//! prices, ratios and rates of the engine use this representation, and the
//! engine's contracts state their formulas directly over the `atomics`
//! fields, where the scale factors cancel.

use vstd::prelude::*;

verus! {

use crate::arith::div3_by_2;
use crate::arith::mul_u128;
use crate::arith::v2;
use crate::arith::v3;

/// The denominator of a `Decimal`: 10^18.
pub const DECIMAL_FRACTIONAL: u128 = 1_000_000_000_000_000_000;

/// A non-negative fixed-point decimal with 18 fractional digits.
#[derive(Clone, Copy, PartialEq, Eq, Structural, Debug)]
pub struct Decimal {
    /// The value scaled by 10^18.
    pub atomics: u128,
}

impl Decimal {
    /// The decimal 0.
    pub fn zero() -> (r: Decimal)
        ensures
            r.atomics == 0,
    {
        Decimal { atomics: 0 }
    }

    /// The decimal 1.
    pub fn one() -> (r: Decimal)
        ensures
            r.atomics == DECIMAL_FRACTIONAL,
    {
        Decimal { atomics: DECIMAL_FRACTIONAL }
    }

    /// The decimal `p / 100`.
    pub fn percent(p: u64) -> (r: Decimal)
        ensures
            r.atomics == p * (DECIMAL_FRACTIONAL / 100),
    {
        proof {
            assert((p as u128) * 10_000_000_000_000_000 <= u128::MAX) by (nonlinear_arith)
                requires
                    p <= u64::MAX,
            ;
        }
        Decimal { atomics: (p as u128) * 10_000_000_000_000_000 }
    }

    /// The decimal closest to `numerator / denominator` from below.
    pub fn from_ratio(numerator: u128, denominator: u128) -> (r: Decimal)
        requires
            denominator != 0,
            numerator * DECIMAL_FRACTIONAL / (denominator as int) <= u128::MAX,
        ensures
            r.atomics == numerator * DECIMAL_FRACTIONAL / (denominator as int),
    {
        let (hi, lo) = mul_u128(numerator, DECIMAL_FRACTIONAL);
        let q = div3_by_2((0, hi, lo), (0, denominator));
        proof {
            assert(v3((0, hi, lo)) == v2((hi, lo)));
            assert(v2((0, denominator)) == denominator);
        }
        Decimal { atomics: q.unwrap().0 }
    }

    /// Whether the decimal is 0.
    pub fn is_zero(&self) -> (r: bool)
        ensures
            r == (self.atomics == 0),
    {
        self.atomics == 0
    }

    /// Whether `self` is strictly below `other`.
    pub fn lt(&self, other: &Decimal) -> (r: bool)
        ensures
            r == (self.atomics < other.atomics),
    {
        self.atomics < other.atomics
    }
}

} // verus!
