//! The conversion engine: checks that two units share a dimension, routes
//! the value through the dimension's pivot unit (Celsius for temperature,
//! centimeter for length), and produces both the human-readable summary
//! and the structured history record of the conversion.
//!
//! Every per-unit formula is an affine map on exact fractions, written as
//! a coefficient triple `(a, b, c)` taking `n / d` to
//! `(a*n + b*d) / (c*d)`. One to-pivot and one from-pivot triple per unit
//! suffice for every unit pair of a dimension.

use vstd::prelude::*;
use vstd::string::*;
use crate::decimal::Decimal;
use crate::history::HistoryEntry;
use crate::numfmt::{spec_format_flexible, format_flexible_precision};
use crate::rational::{Rational, rat_eq};
use crate::unit::{
    AnyUnit, LengthUnit, TempUnit, UnitType, get_unit_name, get_unit_symbol, spec_unit_name,
    spec_unit_symbol, spec_unit_type, spec_unit_type_name, unit_type_name,
};

verus! {

/// An affine map applied to the fraction `n / d`: the numerator of the
/// image.
pub open spec fn lin_num(c: (int, int, int), n: int, d: int) -> int {
    c.0 * n + c.1 * d
}

/// An affine map applied to the fraction `n / d`: the denominator of the
/// image.
pub open spec fn lin_den(c: (int, int, int), d: int) -> int {
    c.2 * d
}

/// The affine map taking a unit's value to the value in its dimension's
/// pivot unit (Celsius, centimeter).
pub open spec fn to_pivot_coeffs(u: AnyUnit) -> (int, int, int) {
    match u {
        AnyUnit::Temperature(TempUnit::Celsius) => (1, 0, 1),
        AnyUnit::Temperature(TempUnit::Fahrenheit) => (5, -160, 9),
        AnyUnit::Temperature(TempUnit::Kelvin) => (100, -27315, 100),
        AnyUnit::Length(LengthUnit::Cm) => (1, 0, 1),
        AnyUnit::Length(LengthUnit::Inch) => (254, 0, 100),
        AnyUnit::Length(LengthUnit::Km) => (100000, 0, 1),
        AnyUnit::Length(LengthUnit::Miles) => (1609344, 0, 10),
    }
}

/// The affine map taking a pivot-unit value to the value in a unit.
pub open spec fn from_pivot_coeffs(u: AnyUnit) -> (int, int, int) {
    match u {
        AnyUnit::Temperature(TempUnit::Celsius) => (1, 0, 1),
        AnyUnit::Temperature(TempUnit::Fahrenheit) => (9, 160, 5),
        AnyUnit::Temperature(TempUnit::Kelvin) => (100, 27315, 100),
        AnyUnit::Length(LengthUnit::Cm) => (1, 0, 1),
        AnyUnit::Length(LengthUnit::Inch) => (100, 0, 254),
        AnyUnit::Length(LengthUnit::Km) => (1, 0, 100000),
        AnyUnit::Length(LengthUnit::Miles) => (10, 0, 1609344),
    }
}

/// The numerator of the full conversion of `n / d` from `from` to `to`:
/// to the pivot, then from the pivot.
pub open spec fn spec_convert_num(from: AnyUnit, to: AnyUnit, n: int, d: int) -> int {
    lin_num(
        from_pivot_coeffs(to),
        lin_num(to_pivot_coeffs(from), n, d),
        lin_den(to_pivot_coeffs(from), d),
    )
}

/// The denominator of the full conversion of `n / d` from `from` to `to`.
pub open spec fn spec_convert_den(from: AnyUnit, to: AnyUnit, d: int) -> int {
    lin_den(from_pivot_coeffs(to), lin_den(to_pivot_coeffs(from), d))
}

fn to_celsius(value: Rational, from: &TempUnit) -> (r: Rational)
    requires
        value.wf(),
        value.den <= 1_000_000_000,
        -100_000_000_000_000_000_000 <= value.num <= 100_000_000_000_000_000_000,
        -100_000_000_000 * value.den <= value.num <= 100_000_000_000 * value.den,
    ensures
        r.num == lin_num(
            to_pivot_coeffs(AnyUnit::Temperature(*from)),
            value.num as int,
            value.den as int,
        ),
        r.den == lin_den(to_pivot_coeffs(AnyUnit::Temperature(*from)), value.den as int),
        1 <= r.den <= 100_000_000_000,
        -200_000_000_000_000_000_000_000_000 <= r.num <= 200_000_000_000_000_000_000_000_000,
        -20_000_000_000_000_000 * r.den <= r.num <= 20_000_000_000_000_000 * r.den,
{
    match from {
        TempUnit::Celsius => value,
        TempUnit::Fahrenheit => Rational {
            num: (value.num - 32 * value.den) * 5,
            den: 9 * value.den,
        },
        TempUnit::Kelvin => Rational {
            num: 100 * value.num - 27315 * value.den,
            den: 100 * value.den,
        },
    }
}

fn from_celsius(celsius: Rational, to: &TempUnit) -> (r: Rational)
    requires
        celsius.wf(),
        celsius.den <= 100_000_000_000,
        -200_000_000_000_000_000_000_000_000 <= celsius.num <= 200_000_000_000_000_000_000_000_000,
        -20_000_000_000_000_000 * celsius.den <= celsius.num
            <= 20_000_000_000_000_000 * celsius.den,
    ensures
        r.num == lin_num(
            from_pivot_coeffs(AnyUnit::Temperature(*to)),
            celsius.num as int,
            celsius.den as int,
        ),
        r.den == lin_den(from_pivot_coeffs(AnyUnit::Temperature(*to)), celsius.den as int),
        1 <= r.den <= 200_000_000_000_000_000,
        -40_000_000_000_000_000_000_000_000_000 <= r.num
            <= 40_000_000_000_000_000_000_000_000_000,
        -100_000_000_000_000_000 * r.den <= r.num <= 100_000_000_000_000_000 * r.den,
{
    match to {
        TempUnit::Celsius => celsius,
        TempUnit::Fahrenheit => Rational {
            num: 9 * celsius.num + 160 * celsius.den,
            den: 5 * celsius.den,
        },
        TempUnit::Kelvin => Rational {
            num: 100 * celsius.num + 27315 * celsius.den,
            den: 100 * celsius.den,
        },
    }
}

fn to_cm(value: Rational, from: &LengthUnit) -> (r: Rational)
    requires
        value.wf(),
        value.den <= 1_000_000_000,
        -100_000_000_000_000_000_000 <= value.num <= 100_000_000_000_000_000_000,
        -100_000_000_000 * value.den <= value.num <= 100_000_000_000 * value.den,
    ensures
        r.num == lin_num(
            to_pivot_coeffs(AnyUnit::Length(*from)),
            value.num as int,
            value.den as int,
        ),
        r.den == lin_den(to_pivot_coeffs(AnyUnit::Length(*from)), value.den as int),
        1 <= r.den <= 100_000_000_000,
        -200_000_000_000_000_000_000_000_000 <= r.num <= 200_000_000_000_000_000_000_000_000,
        -20_000_000_000_000_000 * r.den <= r.num <= 20_000_000_000_000_000 * r.den,
{
    match from {
        LengthUnit::Cm => value,
        LengthUnit::Inch => Rational { num: 254 * value.num, den: 100 * value.den },
        LengthUnit::Km => Rational { num: 100000 * value.num, den: value.den },
        LengthUnit::Miles => Rational { num: 1609344 * value.num, den: 10 * value.den },
    }
}

fn from_cm(cm: Rational, to: &LengthUnit) -> (r: Rational)
    requires
        cm.wf(),
        cm.den <= 100_000_000_000,
        -200_000_000_000_000_000_000_000_000 <= cm.num <= 200_000_000_000_000_000_000_000_000,
        -20_000_000_000_000_000 * cm.den <= cm.num <= 20_000_000_000_000_000 * cm.den,
    ensures
        r.num == lin_num(from_pivot_coeffs(AnyUnit::Length(*to)), cm.num as int, cm.den as int),
        r.den == lin_den(from_pivot_coeffs(AnyUnit::Length(*to)), cm.den as int),
        1 <= r.den <= 200_000_000_000_000_000,
        -40_000_000_000_000_000_000_000_000_000 <= r.num
            <= 40_000_000_000_000_000_000_000_000_000,
        -100_000_000_000_000_000 * r.den <= r.num <= 100_000_000_000_000_000 * r.den,
{
    match to {
        LengthUnit::Cm => cm,
        LengthUnit::Inch => Rational { num: 100 * cm.num, den: 254 * cm.den },
        LengthUnit::Km => Rational { num: cm.num, den: 100000 * cm.den },
        LengthUnit::Miles => Rational { num: 10 * cm.num, den: 1609344 * cm.den },
    }
}

/// The failure of a conversion: the two units belong to different
/// dimensions.
#[derive(Debug, Clone, Copy, PartialEq, Eq, Structural)]
pub enum ConvError {
    DimensionMismatch { from: AnyUnit, to: AnyUnit },
}

/// The diagnostic text of a dimension mismatch between `from` and `to`.
pub open spec fn spec_mismatch_message(from: AnyUnit, to: AnyUnit) -> Seq<char> {
    "[ERROR] Cannot convert between different dimensions: "@ + spec_unit_type_name(
        spec_unit_type(from),
    ) + " ("@ + spec_unit_name(from) + ") to "@ + spec_unit_type_name(spec_unit_type(to)) + " ("@
        + spec_unit_name(to) + ")"@
}

impl ConvError {
    /// Renders the error as its diagnostic message.
    pub fn message(&self) -> (r: String)
        ensures
            (match *self {
                ConvError::DimensionMismatch { from, to } => r@ == spec_mismatch_message(from, to),
            }),
    {
        match self {
            ConvError::DimensionMismatch { from, to } => {
                let mut s = String::from_str("[ERROR] Cannot convert between different dimensions: ");
                let from_type = from.get_type();
                let to_type = to.get_type();
                s.append(unit_type_name(&from_type));
                s.append(" (");
                s.append(get_unit_name(from).as_str());
                s.append(") to ");
                s.append(unit_type_name(&to_type));
                s.append(" (");
                s.append(get_unit_name(to).as_str());
                s.append(")");
                proof {
                    assert(s@ =~= spec_mismatch_message(*from, *to));
                }
                s
            },
        }
    }
}

/// What one successful conversion produces: the human-readable summary
/// and the history record to be persisted.
#[derive(Debug, Clone, PartialEq)]
pub struct ConversionResult {
    pub display_string: String,
    pub history_entry: HistoryEntry,
}

/// The summary line of a conversion: both values under the
/// flexible-precision rule, each followed by its unit's symbol.
pub open spec fn spec_display_string(from: AnyUnit, to: AnyUnit, n: int, d: int) -> Seq<char> {
    spec_format_flexible(n, d) + " "@ + spec_unit_symbol(from) + " = "@ + spec_format_flexible(
        spec_convert_num(from, to, n, d),
        spec_convert_den(from, to, d),
    ) + " "@ + spec_unit_symbol(to)
}

/// Converts `value` from `from` to `to`.
///
/// Fails exactly when the two units belong to different dimensions.
/// Otherwise the value is taken to the dimension's pivot unit and from
/// there to the target unit, both steps exact; the result carries the
/// summary line and the history entry, whose stored values are the input
/// and the result rounded to twelve decimal places.
///
/// The bounds on `value` are what the machine representation forces: a
/// denominator of at most 10^9 (nine decimal places) and a magnitude of
/// at most 10^11 whole units, as `crate::cli::parse_decimal` produces.
pub fn convert_value(from: AnyUnit, to: AnyUnit, value: Rational) -> (r: Result<
    ConversionResult,
    ConvError,
>)
    requires
        value.wf(),
        value.den <= 1_000_000_000,
        -100_000_000_000 * value.den <= value.num <= 100_000_000_000 * value.den,
    ensures
        r is Err <==> spec_unit_type(from) != spec_unit_type(to),
        r is Err ==> r == Result::<ConversionResult, ConvError>::Err(
            ConvError::DimensionMismatch { from, to },
        ),
        (match r {
            Result::Ok(c) => {
                &&& c.history_entry.original_unit@ == spec_unit_symbol(from)
                &&& c.history_entry.target_unit@ == spec_unit_symbol(to)
                &&& c.history_entry.original_value.scaled == Decimal::spec_of_rational(
                    value.num as int,
                    value.den as int,
                )
                &&& c.history_entry.target_value.scaled == Decimal::spec_of_rational(
                    spec_convert_num(from, to, value.num as int, value.den as int),
                    spec_convert_den(from, to, value.den as int),
                )
                &&& c.display_string@ == spec_display_string(
                    from,
                    to,
                    value.num as int,
                    value.den as int,
                )
            },
            Result::Err(_) => true,
        }),
{
    proof {
        reveal_strlit(" ");
        reveal_strlit(" = ");
        assert(-100_000_000_000_000_000_000 <= value.num <= 100_000_000_000_000_000_000)
            by (nonlinear_arith)
            requires
                1 <= value.den <= 1_000_000_000,
                -100_000_000_000 * value.den <= value.num <= 100_000_000_000 * value.den,
        ;
    }
    let from_type = match &from {
        AnyUnit::Temperature(u) => u.get_type(),
        AnyUnit::Length(u) => u.get_type(),
    };
    let to_type = match &to {
        AnyUnit::Temperature(u) => u.get_type(),
        AnyUnit::Length(u) => u.get_type(),
    };

    if from_type != to_type {
        return Err(ConvError::DimensionMismatch { from, to });
    }

    let from_symbol = get_unit_symbol(&from);
    let to_symbol = get_unit_symbol(&to);

    let result = match (from, to) {
        (AnyUnit::Temperature(from_temp), AnyUnit::Temperature(to_temp)) => {
            let base_celsius = to_celsius(value, &from_temp);
            from_celsius(base_celsius, &to_temp)
        },
        (AnyUnit::Length(from_length), AnyUnit::Length(to_length)) => {
            let base_cm = to_cm(value, &from_length);
            from_cm(base_cm, &to_length)
        },
        (AnyUnit::Temperature(_), AnyUnit::Length(_)) => unreached(),
        (AnyUnit::Length(_), AnyUnit::Temperature(_)) => unreached(),
    };

    let mut display_string = format_flexible_precision(value);
    display_string.append(" ");
    display_string.append(from_symbol);
    display_string.append(" = ");
    let result_str = format_flexible_precision(result);
    display_string.append(result_str.as_str());
    display_string.append(" ");
    display_string.append(to_symbol);

    let history_entry = HistoryEntry {
        original_unit: String::from_str(from_symbol),
        target_unit: String::from_str(to_symbol),
        original_value: Decimal::from_rational(value),
        target_value: Decimal::from_rational(result),
    };

    proof {
        assert(display_string@ =~= spec_display_string(
            from,
            to,
            value.num as int,
            value.den as int,
        ));
    }
    Ok(ConversionResult { display_string, history_entry })
}

/// Multiplication shuffles: `x * (c * y) == c * (x * y)`.
proof fn lemma_mul_shuffle(x: int, c: int, y: int)
    ensures
        x * (c * y) == c * (x * y),
{
    assert(x * (c * y) == c * (x * y)) by (nonlinear_arith);
}

/// An affine map on fractions respects equality of values.
proof fn lemma_lin_congruence(c: (int, int, int), n1: int, d1: int, n2: int, d2: int)
    requires
        rat_eq(n1, d1, n2, d2),
    ensures
        rat_eq(lin_num(c, n1, d1), lin_den(c, d1), lin_num(c, n2, d2), lin_den(c, d2)),
{
    let a = c.0;
    let b = c.1;
    let k = c.2;
    assert((a * n1 + b * d1) * d2 == (a * n2 + b * d2) * d1) by (nonlinear_arith)
        requires
            n1 * d2 == n2 * d1,
    ;
    lemma_mul_shuffle(a * n1 + b * d1, k, d2);
    lemma_mul_shuffle(a * n2 + b * d2, k, d1);
}

/// Two affine maps whose coefficients satisfy the inversion identities
/// compose to the identity on values.
proof fn lemma_lin_inverse(c1: (int, int, int), c2: (int, int, int), n: int, d: int)
    requires
        c1.0 * c2.0 == c1.2 * c2.2,
        c2.0 * c1.1 + c2.1 * c1.2 == 0,
    ensures
        rat_eq(
            lin_num(c2, lin_num(c1, n, d), lin_den(c1, d)),
            lin_den(c2, lin_den(c1, d)),
            n,
            d,
        ),
{
    let a1 = c1.0;
    let b1 = c1.1;
    let k1 = c1.2;
    let a2 = c2.0;
    let b2 = c2.1;
    let k2 = c2.2;
    assert(a2 * (a1 * n + b1 * d) == (a1 * a2) * n + (a2 * b1) * d) by (nonlinear_arith);
    assert(b2 * (k1 * d) == (b2 * k1) * d) by (nonlinear_arith);
    assert((a2 * b1) * d + (b2 * k1) * d == (a2 * b1 + b2 * k1) * d) by (nonlinear_arith);
    assert((a2 * b1 + b2 * k1) * d == 0);
    assert(a2 * (a1 * n + b1 * d) + b2 * (k1 * d) == (k1 * k2) * n);
    assert(((k1 * k2) * n) * d == n * (k2 * (k1 * d))) by (nonlinear_arith);
}

/// Equality of fraction values is transitive when the middle denominator
/// is nonzero.
proof fn lemma_rat_eq_trans(n1: int, d1: int, n2: int, d2: int, n3: int, d3: int)
    requires
        rat_eq(n1, d1, n2, d2),
        rat_eq(n2, d2, n3, d3),
        d2 != 0,
    ensures
        rat_eq(n1, d1, n3, d3),
{
    assert(n1 * d3 == n3 * d1) by (nonlinear_arith)
        requires
            n1 * d2 == n2 * d1,
            n2 * d3 == n3 * d2,
            d2 != 0,
    ;
}

/// The inversion identities hold between each unit's to-pivot and
/// from-pivot maps, in both orders, and every scaling coefficient is
/// positive.
proof fn lemma_pivot_coeffs_inverse(u: AnyUnit)
    ensures
        to_pivot_coeffs(u).2 >= 1,
        from_pivot_coeffs(u).2 >= 1,
        to_pivot_coeffs(u).0 * from_pivot_coeffs(u).0 == to_pivot_coeffs(u).2
            * from_pivot_coeffs(u).2,
        from_pivot_coeffs(u).0 * to_pivot_coeffs(u).1 + from_pivot_coeffs(u).1
            * to_pivot_coeffs(u).2 == 0,
        from_pivot_coeffs(u).0 * to_pivot_coeffs(u).0 == from_pivot_coeffs(u).2
            * to_pivot_coeffs(u).2,
        to_pivot_coeffs(u).0 * from_pivot_coeffs(u).1 + to_pivot_coeffs(u).1
            * from_pivot_coeffs(u).2 == 0,
{
    match u {
        AnyUnit::Temperature(TempUnit::Celsius) => {},
        AnyUnit::Temperature(TempUnit::Fahrenheit) => {},
        AnyUnit::Temperature(TempUnit::Kelvin) => {},
        AnyUnit::Length(LengthUnit::Cm) => {},
        AnyUnit::Length(LengthUnit::Inch) => {},
        AnyUnit::Length(LengthUnit::Km) => {},
        AnyUnit::Length(LengthUnit::Miles) => {},
    }
}

/// Round-trip law: converting a value from `from` to `to` and converting
/// the result back from `to` to `from` yields exactly the original value,
/// as an equality of exact fractions. The displayed output may still be
/// rounded by the flexible-precision rule; the unrounded numeric result
/// round-trips exactly.
pub proof fn lemma_convert_round_trip(from: AnyUnit, to: AnyUnit, n: int, d: int)
    requires
        spec_unit_type(from) == spec_unit_type(to),
        d >= 1,
    ensures
        ({
            let fwd_n = spec_convert_num(from, to, n, d);
            let fwd_d = spec_convert_den(from, to, d);
            let back_n = spec_convert_num(to, from, fwd_n, fwd_d);
            let back_d = spec_convert_den(to, from, fwd_d);
            fwd_d >= 1 && back_d >= 1 && rat_eq(back_n, back_d, n, d)
        }),
{
    let ca = to_pivot_coeffs(from);
    let cb = from_pivot_coeffs(to);
    let cc = to_pivot_coeffs(to);
    let cd = from_pivot_coeffs(from);
    lemma_pivot_coeffs_inverse(from);
    lemma_pivot_coeffs_inverse(to);
    let w_n = lin_num(ca, n, d);
    let w_d = lin_den(ca, d);
    let x_n = lin_num(cb, w_n, w_d);
    let x_d = lin_den(cb, w_d);
    let y_n = lin_num(cc, x_n, x_d);
    let y_d = lin_den(cc, x_d);
    let z_n = lin_num(cd, y_n, y_d);
    let z_d = lin_den(cd, y_d);
    assert(w_d >= 1) by (nonlinear_arith)
        requires
            w_d == ca.2 * d,
            ca.2 >= 1,
            d >= 1,
    ;
    assert(x_d >= 1) by (nonlinear_arith)
        requires
            x_d == cb.2 * w_d,
            cb.2 >= 1,
            w_d >= 1,
    ;
    assert(y_d >= 1) by (nonlinear_arith)
        requires
            y_d == cc.2 * x_d,
            cc.2 >= 1,
            x_d >= 1,
    ;
    assert(z_d >= 1) by (nonlinear_arith)
        requires
            z_d == cd.2 * y_d,
            cd.2 >= 1,
            y_d >= 1,
    ;
    let v_n = lin_num(cd, w_n, w_d);
    let v_d = lin_den(cd, w_d);
    assert(v_d >= 1) by (nonlinear_arith)
        requires
            v_d == cd.2 * w_d,
            cd.2 >= 1,
            w_d >= 1,
    ;
    // Converting back first undoes the from-pivot step of the forward
    // conversion: `y` has the same value as `w`.
    lemma_lin_inverse(cb, cc, w_n, w_d);
    // Applying the final from-pivot map to equal values gives equal values.
    lemma_lin_congruence(cd, y_n, y_d, w_n, w_d);
    // And that map undoes the forward conversion's to-pivot step.
    lemma_lin_inverse(ca, cd, n, d);
    lemma_rat_eq_trans(z_n, z_d, v_n, v_d, n, d);
}

} // verus!


