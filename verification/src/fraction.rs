//! Exact rational numbers.
//!
//! Grade figures are quotients of weighted sums, so the engine reports them as
//! exact fractions instead of rounding: a caller that only wants to display
//! them divides at the very end.

use vstd::prelude::*;

verus! {

/// An exact rational value `num / den`, with `den > 0`.
#[derive(Clone, Copy, Debug, PartialEq, Eq, Structural)]
pub struct Fraction {
    pub num: i128,
    pub den: i128,
}

impl Fraction {
    /// A well-formed fraction has a positive denominator.
    pub open spec fn wf(self) -> bool {
        self.den > 0
    }
}

/// `a <= b` as values, by cross-multiplication (denominators positive).
pub open spec fn frac_le(a: Fraction, b: Fraction) -> bool {
    a.num * b.den <= b.num * a.den
}

/// `a == b` as values, by cross-multiplication (denominators positive).
pub open spec fn frac_eq(a: Fraction, b: Fraction) -> bool {
    a.num * b.den == b.num * a.den
}

/// A fraction equals the integer `v` exactly when its numerator is `v` times
/// its denominator.
pub open spec fn frac_is_int(a: Fraction, v: int) -> bool {
    a.num == v * a.den
}

impl Fraction {
    /// Construct a fraction from a numerator and a positive denominator.
    pub fn new(num: i128, den: i128) -> (r: Fraction)
        requires
            den > 0,
        ensures
            r.num == num,
            r.den == den,
            r.wf(),
    {
        Fraction { num, den }
    }
}

} // verus!
