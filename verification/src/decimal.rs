//! Fixed-point decimals: the numeric representation stored in the history
//! ledger. A `Decimal` holds a value scaled by 10^12, so every ledger
//! value is an exact twelve-place decimal that survives a round trip
//! through the history file unchanged.

use vstd::prelude::*;
use vstd::string::*;
use vstd::arithmetic::div_mod::{
    lemma_fundamental_div_mod,
    lemma_hoist_over_denominator,
    lemma_mod_division_less_than_divisor,
    lemma_multiply_divide_le,
};
use crate::rational::{Rational, spec_round, round_div};
use crate::numfmt::{dec_digits, dec_digits_padded, trimmed_frac, u128_to_string,
    u128_to_string_padded, u128_to_string_trimmed};

verus! {

/// The scaling factor: a `Decimal` stores its value times 10^12.
pub const DEC_SCALE: i128 = 1_000_000_000_000;

/// A number with exactly twelve decimal places: the value
/// `scaled / 10^12`.
#[derive(Debug, Clone, Copy, PartialEq, Eq, Structural)]
pub struct Decimal {
    pub scaled: i128,
}

impl Decimal {
    /// The value of a rational, rounded (half away from zero) to twelve
    /// decimal places.
    pub open spec fn spec_of_rational(n: int, d: int) -> int
        recommends
            d >= 1,
    {
        spec_round(n * (DEC_SCALE as int), d)
    }

    pub fn from_scaled(scaled: i128) -> (r: Decimal)
        ensures
            r.scaled == scaled,
    {
        Decimal { scaled }
    }

    /// Rounds a rational to the nearest twelve-place decimal, halves away
    /// from zero.
    pub fn from_rational(v: Rational) -> (r: Decimal)
        requires
            v.wf(),
            v.den <= 1_000_000_000_000_000_000,
            -100_000_000_000_000_000 * v.den <= v.num <= 100_000_000_000_000_000 * v.den,
        ensures
            r.scaled == Decimal::spec_of_rational(v.num as int, v.den as int),
            -2_000_000_000_000_000_000_000_000_000_000 <= r.scaled
                <= 2_000_000_000_000_000_000_000_000_000_000,
    {
        proof {
            assert({
                -100_000_000_000_000_000_000_000_000_000_000_000 <= v.num
                    <= 100_000_000_000_000_000_000_000_000_000_000_000
            })
                by (nonlinear_arith)
                requires
                    1 <= v.den <= 1_000_000_000_000_000_000,
                    -100_000_000_000_000_000 * v.den <= v.num <= 100_000_000_000_000_000 * v.den,
            ;
        }
        let neg = v.num < 0;
        let a: u128 = if neg {
            (-v.num) as u128
        } else {
            v.num as u128
        };
        let d: u128 = v.den as u128;
        proof {
            assert(-(100_000_000_000_000_000 * v.den) == (-100_000_000_000_000_000) * v.den)
                by (nonlinear_arith);
            lemma_multiply_divide_le(a as int, d as int, 100_000_000_000_000_000int);
        }
        let q = a / d;
        let rem = a % d;
        let rp = round_div((rem as i128) * DEC_SCALE, v.den);
        proof {
            lemma_mod_division_less_than_divisor(a as int, d as int);
            assert(rp <= DEC_SCALE) by {
                assert(rp * v.den <= (rem as int) * (DEC_SCALE as int) + v.den);
                assert((rem as int) * (DEC_SCALE as int) + v.den < v.den * (DEC_SCALE as int + 1))
                    by (nonlinear_arith)
                    requires
                        0 <= rem as int <= v.den - 1,
                        v.den >= 1,
                ;
                assert(rp <= DEC_SCALE) by (nonlinear_arith)
                    requires
                        rp * v.den < v.den * (DEC_SCALE as int + 1),
                        v.den >= 1,
                ;
            }
        }
        let mag = (q as i128) * DEC_SCALE + rp;
        proof {
            lemma_decimal_split(a as int, d as int, q as int, rem as int);
        }
        if neg {
            Decimal { scaled: -mag }
        } else {
            Decimal { scaled: mag }
        }
    }
}

/// Rounding a nonnegative value `a / d` to twelve places splits into its
/// integer part and the rounding of its remainder.
proof fn lemma_decimal_split(a: int, d: int, q: int, rem: int)
    requires
        0 <= a,
        1 <= d,
        q == a / d,
        rem == a % d,
    ensures
        q * (DEC_SCALE as int) + spec_round(rem * (DEC_SCALE as int), d)
            == spec_round(a * (DEC_SCALE as int), d),
{
    let s = DEC_SCALE as int;
    lemma_fundamental_div_mod(a, d);
    lemma_mod_division_less_than_divisor(a, d);
    assert(a * s == (d * q) * s + rem * s) by (nonlinear_arith)
        requires
            a == d * q + rem,
    ;
    assert(2 * (rem * s) + d + (q * s) * (2 * d) == 2 * (a * s) + d) by (nonlinear_arith)
        requires
            a * s == (d * q) * s + rem * s,
    ;
    lemma_hoist_over_denominator(2 * (rem * s) + d, q * s, (2 * d) as nat);
}

/// The canonical rendering of a `Decimal` as a number in the history
/// file: the integer part, a point, and the twelve fraction digits with
/// trailing zeros trimmed (never below one digit, so an integral value
/// ends in `.0`).
pub open spec fn spec_decimal_json(scaled: int) -> Seq<char> {
    if scaled < 0 {
        seq!['-'] + spec_decimal_json_mag((-scaled) as nat)
    } else {
        spec_decimal_json_mag(scaled as nat)
    }
}

pub open spec fn spec_decimal_json_mag(m: nat) -> Seq<char> {
    dec_digits(m / (DEC_SCALE as nat)) + seq!['.'] + trimmed_frac(m % (DEC_SCALE as nat), 12)
}

/// The rendering of a `Decimal` rounded to four decimal places, halves
/// away from zero, always with exactly four fraction digits; the form
/// each value takes in a displayed history line.
pub open spec fn spec_decimal_4dp(scaled: int) -> Seq<char> {
    let r = spec_round(scaled, 100_000_000);
    if r < 0 {
        seq!['-'] + spec_decimal_4dp_mag((-r) as nat)
    } else {
        spec_decimal_4dp_mag(r as nat)
    }
}

pub open spec fn spec_decimal_4dp_mag(m: nat) -> Seq<char> {
    dec_digits(m / 10000) + seq!['.'] + dec_digits_padded(m % 10000, 4)
}

impl Decimal {
    /// Renders the decimal in its history-file form.
    pub fn to_json_string(&self) -> (s: String)
        requires
            self.scaled > i128::MIN,
        ensures
            s@ == spec_decimal_json(self.scaled as int),
    {
        proof {
            reveal_strlit("-");
            reveal_strlit(".");
        }
        let neg = self.scaled < 0;
        let m: u128 = if neg {
            (-self.scaled) as u128
        } else {
            self.scaled as u128
        };
        let scale = DEC_SCALE as u128;
        let mut s = if neg {
            String::from_str("-")
        } else {
            String::new()
        };
        let intpart = u128_to_string(m / scale);
        s.append(intpart.as_str());
        s.append(".");
        let frac = u128_to_string_trimmed(m % scale, 12);
        s.append(frac.as_str());
        proof {
            assert(s@ =~= spec_decimal_json(self.scaled as int));
        }
        s
    }

    /// Renders the decimal rounded to four places, as in a history line.
    pub fn to_4dp_string(&self) -> (s: String)
        requires
            -2_000_000_000_000_000_000_000_000_000_000 <= self.scaled
                <= 2_000_000_000_000_000_000_000_000_000_000,
        ensures
            s@ == spec_decimal_4dp(self.scaled as int),
    {
        proof {
            reveal_strlit("-");
            reveal_strlit(".");
        }
        let r = round_div(self.scaled, 100_000_000);
        let neg = r < 0;
        let m: u128 = if neg {
            (-r) as u128
        } else {
            r as u128
        };
        let mut s = if neg {
            String::from_str("-")
        } else {
            String::new()
        };
        let intpart = u128_to_string(m / 10000);
        s.append(intpart.as_str());
        s.append(".");
        let frac = u128_to_string_padded(m % 10000, 4);
        s.append(frac.as_str());
        proof {
            assert(s@ =~= spec_decimal_4dp(self.scaled as int));
        }
        s
    }
}

} // verus!
