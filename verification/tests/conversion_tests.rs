use unitconv::cli::parse_decimal;
use unitconv::conversion::{convert_value, ConvError};
use unitconv::numfmt::format_flexible_precision;
use unitconv::rational::Rational;
use unitconv::unit::{AnyUnit, LengthUnit, TempUnit, UnitType};

fn rat(num: i128, den: i128) -> Rational {
    Rational { num, den }
}

#[test]
fn format_integer_value() {
    assert_eq!(format_flexible_precision(rat(32, 1)), "32");
}

#[test]
fn format_near_but_not_integer() {
    let v = parse_decimal("98.60000001").unwrap();
    assert_eq!(format_flexible_precision(v), "98.6");
}

#[test]
fn format_zero() {
    assert_eq!(format_flexible_precision(rat(0, 1)), "0");
}

#[test]
fn format_rounds_to_three_decimals() {
    let v = parse_decimal("1.23456").unwrap();
    assert_eq!(format_flexible_precision(v), "1.235");
}

#[test]
fn celsius_to_fahrenheit_zero() {
    let r = convert_value(
        AnyUnit::Temperature(TempUnit::Celsius),
        AnyUnit::Temperature(TempUnit::Fahrenheit),
        rat(0, 1),
    )
    .unwrap();
    assert_eq!(r.display_string, "0 °C = 32 °F");
    assert_eq!(r.history_entry.original_unit, "°C");
    assert_eq!(r.history_entry.target_unit, "°F");
    assert_eq!(r.history_entry.target_value.scaled, 32_000_000_000_000);
}

#[test]
fn celsius_to_kelvin_zero() {
    let r = convert_value(
        AnyUnit::Temperature(TempUnit::Celsius),
        AnyUnit::Temperature(TempUnit::Kelvin),
        rat(0, 1),
    )
    .unwrap();
    assert_eq!(r.display_string, "0 °C = 273.15 K");
}

#[test]
fn miles_to_km_one() {
    let r = convert_value(
        AnyUnit::Length(LengthUnit::Miles),
        AnyUnit::Length(LengthUnit::Km),
        rat(1, 1),
    )
    .unwrap();
    assert_eq!(r.display_string, "1 miles = 1.609 km");
    assert_eq!(r.history_entry.target_value.scaled, 1_609_344_000_000);
}

#[test]
fn fahrenheit_to_celsius_body_temperature() {
    let r = convert_value(
        AnyUnit::Temperature(TempUnit::Fahrenheit),
        AnyUnit::Temperature(TempUnit::Celsius),
        rat(986, 10),
    )
    .unwrap();
    assert_eq!(r.display_string, "98.6 °F = 37 °C");
}

#[test]
fn cross_dimension_fails() {
    let r = convert_value(
        AnyUnit::Temperature(TempUnit::Celsius),
        AnyUnit::Length(LengthUnit::Km),
        rat(1, 1),
    );
    match r {
        Err(ConvError::DimensionMismatch { from, to }) => {
            assert_eq!(from, AnyUnit::Temperature(TempUnit::Celsius));
            assert_eq!(to, AnyUnit::Length(LengthUnit::Km));
        }
        Ok(_) => panic!("cross-dimension conversion succeeded"),
    }
}

#[test]
fn every_cross_dimension_pair_fails() {
    let temps = [TempUnit::Celsius, TempUnit::Fahrenheit, TempUnit::Kelvin];
    let lengths = [
        LengthUnit::Cm,
        LengthUnit::Inch,
        LengthUnit::Km,
        LengthUnit::Miles,
    ];
    for t in temps {
        for l in lengths {
            assert!(convert_value(AnyUnit::Temperature(t), AnyUnit::Length(l), rat(1, 1)).is_err());
            assert!(convert_value(AnyUnit::Length(l), AnyUnit::Temperature(t), rat(1, 1)).is_err());
        }
    }
}

#[test]
fn mismatch_message_text() {
    let e = convert_value(
        AnyUnit::Temperature(TempUnit::Celsius),
        AnyUnit::Length(LengthUnit::Km),
        rat(1, 1),
    )
    .unwrap_err();
    assert_eq!(
        e.message(),
        "[ERROR] Cannot convert between different dimensions: Temperature (Celsius) to Length (Km)"
    );
}

#[test]
fn round_trip_within_tolerance() {
    let pairs = [
        (AnyUnit::Temperature(TempUnit::Fahrenheit), AnyUnit::Temperature(TempUnit::Kelvin)),
        (AnyUnit::Temperature(TempUnit::Celsius), AnyUnit::Temperature(TempUnit::Fahrenheit)),
        (AnyUnit::Length(LengthUnit::Miles), AnyUnit::Length(LengthUnit::Km)),
        (AnyUnit::Length(LengthUnit::Inch), AnyUnit::Length(LengthUnit::Cm)),
    ];
    for (from, to) in pairs {
        let v = parse_decimal("123.456").unwrap();
        let fwd = convert_value(from, to, v).unwrap();
        // The ledger stores the result as an exact twelve-place decimal;
        // shorten it to nine places, the most a command-line value carries.
        let back_in = Rational {
            num: fwd.history_entry.target_value.scaled / 1000,
            den: 1_000_000_000,
        };
        let back = convert_value(to, from, back_in).unwrap();
        let got = back.history_entry.target_value.scaled as f64 / 1e12;
        assert!((got - 123.456).abs() < 1e-6, "round trip through {:?} gave {}", to, got);
    }
}

#[test]
fn get_type_tags() {
    assert_eq!(TempUnit::Celsius.get_type(), UnitType::Temperature);
    assert_eq!(LengthUnit::Km.get_type(), UnitType::Length);
}

#[test]
fn parse_decimal_forms() {
    assert_eq!(parse_decimal("3.5"), Some(Rational { num: 35, den: 10 }));
    assert_eq!(parse_decimal("-0.25"), Some(Rational { num: -25, den: 100 }));
    assert_eq!(parse_decimal("+7"), Some(Rational { num: 7, den: 1 }));
    assert_eq!(parse_decimal("0"), Some(Rational { num: 0, den: 1 }));
    assert_eq!(parse_decimal(""), None);
    assert_eq!(parse_decimal("abc"), None);
    assert_eq!(parse_decimal("1e5"), None);
    assert_eq!(parse_decimal("1."), None);
    assert_eq!(parse_decimal("."), None);
    assert_eq!(parse_decimal("123456789012"), None); // too many integer digits
}
