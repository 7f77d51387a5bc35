//! Exact numeric values: a fraction of two machine integers, together with
//! the rounding rule (round half away from zero) that every place in the
//! library that shortens a value to a fixed number of decimals uses.

use vstd::prelude::*;
use vstd::arithmetic::div_mod::{
    lemma_div_nonincreasing,
    lemma_div_pos_is_pos,
    lemma_fundamental_div_mod,
    lemma_mod_division_less_than_divisor,
};

verus! {

/// An exact numeric value: `num / den`, with `den` strictly positive.
#[derive(Debug, Clone, Copy, PartialEq, Eq, Structural)]
pub struct Rational {
    pub num: i128,
    pub den: i128,
}

impl Rational {
    /// A rational is well formed when its denominator is positive.
    pub open spec fn wf(self) -> bool {
        self.den >= 1
    }

    pub fn new(num: i128, den: i128) -> (r: Rational)
        requires
            den >= 1,
        ensures
            r.num == num && r.den == den && r.wf(),
    {
        Rational { num, den }
    }

    pub fn from_int(n: i128) -> (r: Rational)
        ensures
            r.num == n && r.den == 1 && r.wf(),
    {
        Rational { num: n, den: 1 }
    }
}

/// Two fractions denote the same value exactly when they cross-multiply
/// to the same product (denominators positive).
pub open spec fn rat_eq(n1: int, d1: int, n2: int, d2: int) -> bool {
    n1 * d2 == n2 * d1
}

/// `n / d` rounded to the nearest integer, halves away from zero
/// (`d` positive). Spec-mode division on `int` is Euclidean, and both
/// operands of each division below are nonnegative, so each division is
/// an ordinary floor.
pub open spec fn spec_round(n: int, d: int) -> int
    recommends
        d >= 1,
{
    if n >= 0 {
        (2 * n + d) / (2 * d)
    } else {
        -((2 * (-n) + d) / (2 * d))
    }
}

/// The largest magnitude `round_div` accepts, chosen so that the doubled
/// numerator plus the denominator still fits in 128 bits.
pub const ROUND_ARG_MAX: i128 = 1_000_000_000_000_000_000_000_000_000_000_000_000;

proof fn lemma_nonneg_round_bounds(a: int, d: int)
    requires
        0 <= a,
        1 <= d,
    ensures
        0 <= (2 * a + d) / (2 * d) <= 2 * a + d,
        a - d <= ((2 * a + d) / (2 * d)) * d <= a + d,
{
    let q = (2 * a + d) / (2 * d);
    lemma_div_pos_is_pos(2 * a + d, 2 * d);
    lemma_div_nonincreasing(2 * a + d, 2 * d);
    lemma_fundamental_div_mod(2 * a + d, 2 * d);
    lemma_mod_division_less_than_divisor(2 * a + d, 2 * d);
    assert((2 * d) * q == 2 * (q * d)) by (nonlinear_arith);
}

/// `n / d` rounded to the nearest integer, halves away from zero. The
/// result multiplied back by `d` stays within `d` of `n`.
pub fn round_div(n: i128, d: i128) -> (r: i128)
    requires
        1 <= d <= ROUND_ARG_MAX,
        -ROUND_ARG_MAX <= n <= ROUND_ARG_MAX,
    ensures
        r == spec_round(n as int, d as int),
        n - d <= r * d <= n + d,
{
    let dd = d as u128;
    if n >= 0 {
        let m = n as u128;
        proof {
            lemma_nonneg_round_bounds(m as int, dd as int);
        }
        ((2 * m + dd) / (2 * dd)) as i128
    } else {
        let m = (-n) as u128;
        proof {
            lemma_nonneg_round_bounds(m as int, dd as int);
        }
        let q = ((2 * m + dd) / (2 * dd)) as i128;
        proof {
            assert((-q) * d == -(q * d)) by (nonlinear_arith);
        }
        -q
    }
}

} // verus!
