//! The command-line boundary's value parsing: decimal text into an exact
//! fraction, with the size caps under which the conversion engine's
//! arithmetic is known not to overflow.

use vstd::prelude::*;
use crate::rational::Rational;
use crate::scan::{sp_digits, pow10, pow10_i128, scan_digits, str_to_chars, lemma_pow10_pos,
    lemma_pow10_le};

verus! {

/// What a piece of command-line value text denotes: an optional sign, one
/// to eleven integer digits, and optionally a point followed by one to
/// nine fraction digits; nothing else. The result is the numerator and
/// denominator of the exact value. The digit caps are what keeps every
/// later computation on the value inside 128-bit arithmetic.
pub open spec fn spec_parse_decimal(s: Seq<char>) -> Option<(int, int)> {
    let neg = s.len() > 0 && s[0] == '-';
    let signed = s.len() > 0 && (s[0] == '-' || s[0] == '+');
    let i0: int = if signed {
        1
    } else {
        0
    };
    let t = sp_digits(s, i0, 0, 0);
    if !(1 <= t.1 <= 11) {
        None
    } else if t.2 == s.len() {
        Some(
            (
                if neg {
                    -t.0
                } else {
                    t.0
                },
                1,
            ),
        )
    } else if s[t.2] == '.' {
        let f = sp_digits(s, t.2 + 1, 0, 0);
        if !(1 <= f.1 <= 9) || f.2 != s.len() {
            None
        } else {
            let num = t.0 * pow10(f.1 as nat) + f.0;
            Some(
                (
                    if neg {
                        -num
                    } else {
                        num
                    },
                    pow10(f.1 as nat),
                ),
            )
        }
    } else {
        None
    }
}

/// Parses command-line value text into an exact fraction. The result is
/// well formed and small enough for `convert_value`: the denominator is
/// at most 10^9 and the value's magnitude below 10^11.
pub fn parse_decimal(text: &str) -> (r: Option<Rational>)
    ensures
        match r {
            Some(v) => {
                &&& spec_parse_decimal(text@) == Some((v.num as int, v.den as int))
                &&& v.wf()
                &&& v.den <= 1_000_000_000
                &&& -100_000_000_000 * v.den <= v.num <= 100_000_000_000 * v.den
            },
            None => spec_parse_decimal(text@) is None,
        },
{
    let cs = str_to_chars(text);
    let ghost s = cs@;
    let mut j: usize = 0;
    let neg = cs.len() > 0 && cs[0] == '-';
    let signed = cs.len() > 0 && (cs[0] == '-' || cs[0] == '+');
    if signed {
        j = 1;
    }
    let (iv, ic, j1) = match scan_digits(&cs, j) {
        None => {
            return None;
        },
        Some(v) => v,
    };
    if ic < 1 || ic > 11 {
        return None;
    }
    proof {
        lemma_pow10_le(ic as nat, 11);
        assert(pow10(11) == 100_000_000_000) by {
            reveal_with_fuel(pow10, 13);
        }
    }
    if j1 == cs.len() {
        let num = if neg {
            -iv
        } else {
            iv
        };
        return Some(Rational { num, den: 1 });
    }
    if cs[j1] != '.' {
        return None;
    }
    let (fv, fc, j2) = match scan_digits(&cs, j1 + 1) {
        None => {
            return None;
        },
        Some(v) => v,
    };
    if fc < 1 || fc > 9 {
        return None;
    }
    if j2 != cs.len() {
        return None;
    }
    let p = pow10_i128(fc);
    proof {
        lemma_pow10_pos(fc as nat);
        lemma_pow10_le(fc as nat, 9);
        assert(pow10(9) == 1_000_000_000) by {
            reveal_with_fuel(pow10, 11);
        }
        assert(iv * p <= 100_000_000_000 * p - p) by (nonlinear_arith)
            requires
                0 <= iv <= 100_000_000_000 - 1,
                p >= 1,
        ;
        assert(iv * p >= 0) by (nonlinear_arith)
            requires
                iv >= 0 && p >= 1,
        ;
    }
    let num_mag = iv * p + fv;
    let num = if neg {
        -num_mag
    } else {
        num_mag
    };
    proof {
        assert(num_mag < 100_000_000_000 * p);
        assert(-100_000_000_000 * (p as int) == -(100_000_000_000 * (p as int)))
            by (nonlinear_arith);
    }
    Some(Rational { num, den: p })
}

} // verus!
