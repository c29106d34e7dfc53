//! Exact positive rationals.
//!
//! Beat periods and BPM values are ratios of integers: keeping them exact
//! makes the period/BPM conversion a true inverse and the candidate grid
//! exactly evenly spaced, instead of approximately so.

use vstd::arithmetic::div_mod::{lemma_div_is_ordered, lemma_div_multiples_vanish, lemma_div_of0};
use vstd::prelude::*;

verus! {

/// An exact positive rational number with value `num / den`.
#[derive(Clone, Copy, PartialEq, Eq, Structural, Debug)]
pub struct Ratio {
    pub num: u128,
    pub den: u128,
}

/// Two ratios denote the same rational number (cross multiplication).
pub open spec fn ratio_eq(a: Ratio, b: Ratio) -> bool {
    a.num * b.den == b.num * a.den
}

/// `a <= b` as rational numbers (cross multiplication).
pub open spec fn ratio_le(a: Ratio, b: Ratio) -> bool {
    a.num * b.den <= b.num * a.den
}

/// `a < b` as rational numbers (cross multiplication).
pub open spec fn ratio_lt(a: Ratio, b: Ratio) -> bool {
    a.num * b.den < b.num * a.den
}

impl Ratio {
    /// Numerator and denominator are both positive, so the ratio denotes a
    /// well-defined positive rational number.
    pub open spec fn wf(self) -> bool {
        self.num >= 1 && self.den >= 1
    }

    /// The value floored to fixed point with 16 fractional bits.
    pub open spec fn spec_to_q16(self) -> int {
        (self.num * 65536) as int / self.den as int
    }

    pub fn new(num: u128, den: u128) -> (r: Ratio)
        requires
            num >= 1,
            den >= 1,
        ensures
            r == (Ratio { num, den }),
            r.wf(),
    {
        Ratio { num, den }
    }

    /// Exact equality test of the denoted rational numbers.
    pub fn same_value(&self, other: &Ratio) -> (r: bool)
        requires
            self.wf(),
            other.wf(),
            self.num * other.den <= u128::MAX,
            other.num * self.den <= u128::MAX,
        ensures
            r == ratio_eq(*self, *other),
    {
        self.num * other.den == other.num * self.den
    }

    /// Exact `<=` test of the denoted rational numbers.
    pub fn le_value(&self, other: &Ratio) -> (r: bool)
        requires
            self.wf(),
            other.wf(),
            self.num * other.den <= u128::MAX,
            other.num * self.den <= u128::MAX,
        ensures
            r == ratio_le(*self, *other),
    {
        self.num * other.den <= other.num * self.den
    }

    /// Exact `<` test of the denoted rational numbers.
    pub fn lt_value(&self, other: &Ratio) -> (r: bool)
        requires
            self.wf(),
            other.wf(),
            self.num * other.den <= u128::MAX,
            other.num * self.den <= u128::MAX,
        ensures
            r == ratio_lt(*self, *other),
    {
        self.num * other.den < other.num * self.den
    }

    /// A value at most `cap` stays at most `cap * 65536` after Q16 flooring.
    pub proof fn lemma_to_q16_le(self, cap: int)
        requires
            self.wf(),
            0 <= cap,
            self.num <= cap * self.den,
        ensures
            0 <= self.spec_to_q16() <= cap * 65536,
    {
        let d = self.den as int;
        assert(self.num * 65536 <= d * (cap * 65536)) by (nonlinear_arith)
            requires self.num <= cap * self.den, self.den >= 1, 0 <= cap, d == self.den;
        lemma_div_is_ordered((self.num * 65536) as int, d * (cap * 65536), d);
        lemma_div_multiples_vanish(cap * 65536, d);
        lemma_div_is_ordered(0, (self.num * 65536) as int, d);
        lemma_div_of0(d);
    }

    /// The value floored to fixed point with 16 fractional bits.
    pub fn to_q16(&self) -> (r: u64)
        requires
            self.wf(),
            self.num * 65536 <= u128::MAX,
            self.spec_to_q16() <= u64::MAX,
        ensures
            r == self.spec_to_q16(),
    {
        ((self.num * 65536) / self.den) as u64
    }
}

} // verus!
