//! Decimal rendering of integers and of rational values: plain digit
//! strings, zero-padded fraction digits, trailing-zero trimming, and the
//! flexible-precision rule used for conversion output.

use vstd::prelude::*;
use vstd::string::*;
use crate::rational::{Rational, spec_round};

verus! {

/// The decimal digit character for `d` (`d <= 9`).
pub open spec fn digit_char(d: nat) -> char {
    if d == 0 {
        '0'
    } else if d == 1 {
        '1'
    } else if d == 2 {
        '2'
    } else if d == 3 {
        '3'
    } else if d == 4 {
        '4'
    } else if d == 5 {
        '5'
    } else if d == 6 {
        '6'
    } else if d == 7 {
        '7'
    } else if d == 8 {
        '8'
    } else {
        '9'
    }
}

/// The ordinary decimal digits of `n`, most significant first, without
/// a sign and without leading zeros (`0` itself is the single digit `0`).
pub open spec fn dec_digits(n: nat) -> Seq<char>
    decreases n,
{
    if n < 10 {
        seq![digit_char(n)]
    } else {
        dec_digits(n / 10) + seq![digit_char(n % 10)]
    }
}

/// The last `w` decimal digits of `n`, zero-padded to exactly `w`
/// characters; the rendering of a fraction numerator to `w` places.
pub open spec fn dec_digits_padded(n: nat, w: nat) -> Seq<char>
    decreases w,
{
    if w == 0 {
        Seq::empty()
    } else {
        dec_digits_padded(n / 10, (w - 1) as nat) + seq![digit_char(n % 10)]
    }
}

/// A `w`-place fraction numerator with its trailing zeros trimmed, but
/// never trimmed below one digit.
pub open spec fn trimmed_frac(f: nat, w: nat) -> Seq<char>
    decreases w,
{
    if w <= 1 || f % 10 != 0 {
        dec_digits_padded(f, w)
    } else {
        trimmed_frac(f / 10, (w - 1) as nat)
    }
}

/// The decimal rendering of a signed integer.
pub open spec fn int_string(n: int) -> Seq<char> {
    if n < 0 {
        seq!['-'] + dec_digits((-n) as nat)
    } else {
        dec_digits(n as nat)
    }
}

fn digit_str(d: u128) -> (s: &'static str)
    requires
        d <= 9,
    ensures
        s@ == seq![digit_char(d as nat)],
{
    proof {
        reveal_strlit("0");
        reveal_strlit("1");
        reveal_strlit("2");
        reveal_strlit("3");
        reveal_strlit("4");
        reveal_strlit("5");
        reveal_strlit("6");
        reveal_strlit("7");
        reveal_strlit("8");
        reveal_strlit("9");
    }
    let s = if d == 0 {
        "0"
    } else if d == 1 {
        "1"
    } else if d == 2 {
        "2"
    } else if d == 3 {
        "3"
    } else if d == 4 {
        "4"
    } else if d == 5 {
        "5"
    } else if d == 6 {
        "6"
    } else if d == 7 {
        "7"
    } else if d == 8 {
        "8"
    } else {
        "9"
    };
    proof {
        assert(s@ =~= seq![digit_char(d as nat)]);
    }
    s
}

/// The decimal digits of `n`, as a string.
pub fn u128_to_string(n: u128) -> (s: String)
    ensures
        s@ == dec_digits(n as nat),
    decreases n,
{
    if n < 10 {
        String::from_str(digit_str(n))
    } else {
        let mut s = u128_to_string(n / 10);
        s.append(digit_str(n % 10));
        s
    }
}

/// The last `w` decimal digits of `n`, zero-padded to exactly `w` places.
pub fn u128_to_string_padded(n: u128, w: usize) -> (s: String)
    ensures
        s@ == dec_digits_padded(n as nat, w as nat),
    decreases w,
{
    if w == 0 {
        let s = String::new();
        proof {
            assert(s@ =~= dec_digits_padded(n as nat, 0));
        }
        s
    } else {
        let mut s = u128_to_string_padded(n / 10, w - 1);
        s.append(digit_str(n % 10));
        s
    }
}

/// A `w`-place fraction numerator with trailing zeros trimmed.
pub fn u128_to_string_trimmed(f: u128, w: usize) -> (s: String)
    ensures
        s@ == trimmed_frac(f as nat, w as nat),
    decreases w,
{
    if w <= 1 || f % 10 != 0 {
        u128_to_string_padded(f, w)
    } else {
        u128_to_string_trimmed(f / 10, w - 1)
    }
}

/// Whether `n / d` lies strictly within one billionth of its nearest
/// integer, the threshold under which the flexible-precision rule renders
/// a value as a plain integer.
pub open spec fn spec_near_integer(n: int, d: int) -> bool
    recommends
        d >= 1,
{
    let r = spec_round(n, d);
    (if n - r * d >= 0 {
        n - r * d
    } else {
        -(n - r * d)
    }) * 1_000_000_000 < d
}

/// A count of thousandths rendered as a decimal number: the integer part,
/// and, unless they are all zero, a point and the three fraction digits
/// with trailing zeros trimmed.
pub open spec fn thousandths_mag_string(m: nat) -> Seq<char> {
    if m % 1000 == 0 {
        dec_digits(m / 1000)
    } else {
        dec_digits(m / 1000) + seq!['.'] + trimmed_frac(m % 1000, 3)
    }
}

/// The flexible-precision rendering of `n / d`: a value within one
/// billionth of an integer is rendered as that integer; anything else is
/// rounded to three decimal places (half away from zero) and rendered
/// with trailing zeros trimmed.
pub open spec fn spec_format_flexible(n: int, d: int) -> Seq<char>
    recommends
        d >= 1,
{
    if spec_near_integer(n, d) {
        int_string(spec_round(n, d))
    } else {
        let m = spec_round(1000 * n, d);
        if m < 0 {
            seq!['-'] + thousandths_mag_string((-m) as nat)
        } else {
            thousandths_mag_string(m as nat)
        }
    }
}

fn thousandths_mag_to_string(m: u128) -> (s: String)
    ensures
        s@ == thousandths_mag_string(m as nat),
{
    proof {
        reveal_strlit(".");
    }
    if m % 1000 == 0 {
        u128_to_string(m / 1000)
    } else {
        let mut s = u128_to_string(m / 1000);
        s.append(".");
        let frac = u128_to_string_trimmed(m % 1000, 3);
        s.append(frac.as_str());
        proof {
            assert(s@ =~= thousandths_mag_string(m as nat));
        }
        s
    }
}

/// Renders a value for conversion output: if it is within one billionth
/// of its nearest integer it is rendered as that integer, with no decimal
/// point; otherwise it is rounded to three decimal places and rendered
/// with trailing zeros trimmed.
pub fn format_flexible_precision(value: Rational) -> (s: String)
    requires
        value.wf(),
        value.den <= 1_000_000_000_000_000_000,
        -100_000_000_000_000_000_000_000_000_000 <= value.num
            <= 100_000_000_000_000_000_000_000_000_000,
    ensures
        s@ == spec_format_flexible(value.num as int, value.den as int),
{
    proof {
        reveal_strlit("-");
    }
    let r = crate::rational::round_div(value.num, value.den);
    let diff = value.num - r * value.den;
    let adiff = if diff >= 0 {
        diff
    } else {
        -diff
    };
    if adiff * 1_000_000_000 < value.den {
        if r < 0 {
            let mut s = String::from_str("-");
            s.append(u128_to_string((-r) as u128).as_str());
            proof {
                assert(s@ =~= int_string(r as int));
            }
            s
        } else {
            u128_to_string(r as u128)
        }
    } else {
        let m = crate::rational::round_div(1000 * value.num, value.den);
        if m < 0 {
            let mut s = String::from_str("-");
            s.append(thousandths_mag_to_string((-m) as u128).as_str());
            proof {
                assert(s@ =~= spec_format_flexible(value.num as int, value.den as int));
            }
            s
        } else {
            thousandths_mag_to_string(m as u128)
        }
    }
}

} // verus!
