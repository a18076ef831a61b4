//! Exact non-negative rational numbers.
//!
//! The analytical cost model works with quantities such as microseconds and
//! GB/s that are ratios of integers. They are kept as exact fractions
//! (numerator, denominator) instead of floating point, so every formula in
//! the cost model has a mathematically exact value. Fractions are not
//! normalised; equality and order are by cross-multiplication.

use vstd::prelude::*;

verus! {

/// A non-negative rational number `num / den` with `den >= 1`.
#[derive(Debug, Clone, Copy, PartialEq, Eq, Structural)]
pub struct Rat {
    pub num: u128,
    pub den: u128,
}

/// `a` and `b` denote the same rational value.
pub open spec fn rat_eq(a: Rat, b: Rat) -> bool {
    a.num * b.den == b.num * a.den
}

/// The rational value of `a` is at most that of `b`.
pub open spec fn rat_le(a: Rat, b: Rat) -> bool {
    a.num * b.den <= b.num * a.den
}

impl Rat {
    /// The denominator is positive, so the fraction denotes a value.
    pub open spec fn wf(&self) -> bool {
        self.den >= 1
    }

    /// The fraction denotes exactly the integer `n`.
    pub open spec fn is_int(&self, n: int) -> bool {
        self.num == n * self.den
    }

    pub fn new(num: u128, den: u128) -> (r: Rat)
        requires
            den >= 1,
        ensures
            r == (Rat { num, den }),
            r.wf(),
    {
        Rat { num, den }
    }

    pub fn zero() -> (r: Rat)
        ensures
            r == (Rat { num: 0u128, den: 1u128 }),
            r.wf(),
            r.is_int(0),
    {
        Rat { num: 0, den: 1 }
    }

    pub fn one() -> (r: Rat)
        ensures
            r == (Rat { num: 1u128, den: 1u128 }),
            r.wf(),
            r.is_int(1),
    {
        Rat { num: 1, den: 1 }
    }

    /// Exact equality of the denoted values, by cross-multiplication.
    pub fn eq_rat(&self, other: &Rat) -> (r: bool)
        requires
            self.num * other.den <= u128::MAX,
            other.num * self.den <= u128::MAX,
        ensures
            r == rat_eq(*self, *other),
    {
        self.num * other.den == other.num * self.den
    }

    /// Exact order of the denoted values, by cross-multiplication.
    pub fn le_rat(&self, other: &Rat) -> (r: bool)
        requires
            self.num * other.den <= u128::MAX,
            other.num * self.den <= u128::MAX,
        ensures
            r == rat_le(*self, *other),
    {
        self.num * other.den <= other.num * self.den
    }

    /// Whether the denoted value is zero.
    pub fn is_zero(&self) -> (r: bool)
        requires
            self.wf(),
        ensures
            r == self.is_int(0),
    {
        proof {
            assert(self.num == 0 * self.den <==> self.num == 0) by (nonlinear_arith)
                requires
                    self.den >= 1,
            ;
        }
        self.num == 0
    }
}

} // verus!
