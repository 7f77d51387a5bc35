//! The unit model: the closed set of supported units, grouped into two
//! dimensions, with their display symbols, their listing names, and
//! case-insensitive parsing of unit names.

use vstd::prelude::*;
use vstd::string::*;

verus! {

/// The measurement dimension a unit belongs to. Units of different
/// dimensions are never convertible into one another.
#[derive(Debug, Clone, PartialEq, Eq, Structural)]
pub enum UnitType {
    Temperature,
    Length,
}

/// The temperature units. Celsius is the dimension's pivot unit.
#[derive(Debug, Clone, Copy, PartialEq, Eq, Structural)]
pub enum TempUnit {
    Celsius,
    Fahrenheit,
    Kelvin,
}

/// The length units. Centimeter is the dimension's pivot unit.
#[derive(Debug, Clone, Copy, PartialEq, Eq, Structural)]
pub enum LengthUnit {
    Cm,
    Inch,
    Km,
    Miles,
}

/// A unit of either dimension, as accepted at the user-input boundary,
/// where the dimension is unknown until the value is inspected.
#[derive(Debug, Clone, Copy, PartialEq, Eq, Structural)]
pub enum AnyUnit {
    Temperature(TempUnit),
    Length(LengthUnit),
}

impl TempUnit {
    pub fn get_type(&self) -> (t: UnitType)
        ensures
            t == UnitType::Temperature,
    {
        UnitType::Temperature
    }
}

impl LengthUnit {
    pub fn get_type(&self) -> (t: UnitType)
        ensures
            t == UnitType::Length,
    {
        UnitType::Length
    }
}

/// The variant name of a unit, as used in diagnostic messages.
pub open spec fn spec_unit_name(u: AnyUnit) -> Seq<char> {
    match u {
        AnyUnit::Temperature(TempUnit::Celsius) => "Celsius"@,
        AnyUnit::Temperature(TempUnit::Fahrenheit) => "Fahrenheit"@,
        AnyUnit::Temperature(TempUnit::Kelvin) => "Kelvin"@,
        AnyUnit::Length(LengthUnit::Cm) => "Cm"@,
        AnyUnit::Length(LengthUnit::Inch) => "Inch"@,
        AnyUnit::Length(LengthUnit::Km) => "Km"@,
        AnyUnit::Length(LengthUnit::Miles) => "Miles"@,
    }
}

/// The fixed display symbol of a unit, used when a conversion is rendered.
pub open spec fn spec_unit_symbol(u: AnyUnit) -> Seq<char> {
    match u {
        AnyUnit::Temperature(TempUnit::Celsius) => "°C"@,
        AnyUnit::Temperature(TempUnit::Fahrenheit) => "°F"@,
        AnyUnit::Temperature(TempUnit::Kelvin) => "K"@,
        AnyUnit::Length(LengthUnit::Cm) => "cm"@,
        AnyUnit::Length(LengthUnit::Inch) => "inch"@,
        AnyUnit::Length(LengthUnit::Km) => "km"@,
        AnyUnit::Length(LengthUnit::Miles) => "miles"@,
    }
}

/// The variant name of a unit, for diagnostic messages.
pub fn get_unit_name(unit: &AnyUnit) -> (r: String)
    ensures
        r@ == spec_unit_name(*unit),
{
    match unit {
        AnyUnit::Temperature(TempUnit::Celsius) => String::from_str("Celsius"),
        AnyUnit::Temperature(TempUnit::Fahrenheit) => String::from_str("Fahrenheit"),
        AnyUnit::Temperature(TempUnit::Kelvin) => String::from_str("Kelvin"),
        AnyUnit::Length(LengthUnit::Cm) => String::from_str("Cm"),
        AnyUnit::Length(LengthUnit::Inch) => String::from_str("Inch"),
        AnyUnit::Length(LengthUnit::Km) => String::from_str("Km"),
        AnyUnit::Length(LengthUnit::Miles) => String::from_str("Miles"),
    }
}

/// Determines the symbol for a given unit for display purposes.
pub fn get_unit_symbol(unit: &AnyUnit) -> (r: &'static str)
    ensures
        r@ == spec_unit_symbol(*unit),
{
    match unit {
        AnyUnit::Temperature(TempUnit::Celsius) => "°C",
        AnyUnit::Temperature(TempUnit::Fahrenheit) => "°F",
        AnyUnit::Temperature(TempUnit::Kelvin) => "K",
        AnyUnit::Length(LengthUnit::Cm) => "cm",
        AnyUnit::Length(LengthUnit::Inch) => "inch",
        AnyUnit::Length(LengthUnit::Km) => "km",
        AnyUnit::Length(LengthUnit::Miles) => "miles",
    }
}

/// The name of a dimension, as used in diagnostic messages.
pub open spec fn spec_unit_type_name(t: UnitType) -> Seq<char> {
    match t {
        UnitType::Temperature => "Temperature"@,
        UnitType::Length => "Length"@,
    }
}

/// The name of a dimension, for diagnostic messages.
pub fn unit_type_name(t: &UnitType) -> (r: &'static str)
    ensures
        r@ == spec_unit_type_name(*t),
{
    match t {
        UnitType::Temperature => "Temperature",
        UnitType::Length => "Length",
    }
}

/// The dimension an arbitrary unit belongs to.
pub open spec fn spec_unit_type(u: AnyUnit) -> UnitType {
    match u {
        AnyUnit::Temperature(_) => UnitType::Temperature,
        AnyUnit::Length(_) => UnitType::Length,
    }
}

impl AnyUnit {
    pub fn get_type(&self) -> (t: UnitType)
        ensures
            t == spec_unit_type(*self),
    {
        match self {
            AnyUnit::Temperature(u) => u.get_type(),
            AnyUnit::Length(u) => u.get_type(),
        }
    }
}

/// Character-by-character case-insensitive equality against a name given in
/// both its lowercase and its uppercase spelling: each input character must
/// equal the corresponding character of one of the two spellings.
pub open spec fn ci_matches(s: Seq<char>, lower: Seq<char>, upper: Seq<char>) -> bool {
    s.len() == lower.len() && forall|i: int|
        0 <= i < s.len() ==> s[i] == lower[i] || s[i] == upper[i]
}

fn matches_ci(s: &str, lower: &str, upper: &str) -> (r: bool)
    requires
        lower@.len() == upper@.len(),
    ensures
        r == ci_matches(s@, lower@, upper@),
{
    let n = s.unicode_len();
    if n != lower.unicode_len() {
        return false;
    }
    let mut i: usize = 0;
    while i < n
        invariant
            n == s@.len() == lower@.len() == upper@.len(),
            0 <= i <= n,
            forall|j: int| 0 <= j < i ==> s@[j] == lower@[j] || s@[j] == upper@[j],
        decreases n - i,
    {
        let c = s.get_char(i);
        if c != lower.get_char(i) && c != upper.get_char(i) {
            return false;
        }
        i = i + 1;
    }
    true
}

/// Which unit a piece of user text denotes: a case-insensitive lookup across
/// both dimensions, temperature names first, then length names. The accepted
/// names of the two dimensions do not overlap, so the order only decides
/// which dimension is tried first on text that matches neither.
pub open spec fn spec_parse_unit(s: Seq<char>) -> Option<AnyUnit> {
    if ci_matches(s, "celsius"@, "CELSIUS"@) {
        Some(AnyUnit::Temperature(TempUnit::Celsius))
    } else if ci_matches(s, "fahrenheit"@, "FAHRENHEIT"@) {
        Some(AnyUnit::Temperature(TempUnit::Fahrenheit))
    } else if ci_matches(s, "kelvin"@, "KELVIN"@) {
        Some(AnyUnit::Temperature(TempUnit::Kelvin))
    } else if ci_matches(s, "cm"@, "CM"@) {
        Some(AnyUnit::Length(LengthUnit::Cm))
    } else if ci_matches(s, "inch"@, "INCH"@) {
        Some(AnyUnit::Length(LengthUnit::Inch))
    } else if ci_matches(s, "km"@, "KM"@) {
        Some(AnyUnit::Length(LengthUnit::Km))
    } else if ci_matches(s, "miles"@, "MILES"@) {
        Some(AnyUnit::Length(LengthUnit::Miles))
    } else {
        None
    }
}

impl AnyUnit {
    /// Parses user text into a unit, trying the temperature names first and
    /// the length names second, each case-insensitively. Text that matches
    /// no unit name in either dimension is rejected with an invalid-unit
    /// message.
    pub fn from_str(s: &str) -> (r: Result<AnyUnit, String>)
        ensures
            match r {
                Ok(u) => spec_parse_unit(s@) == Some(u),
                Err(m) => spec_parse_unit(s@) is None && m@ == "Invalid unit: "@ + s@,
            },
    {
        proof {
            reveal_strlit("celsius");
            reveal_strlit("CELSIUS");
            reveal_strlit("fahrenheit");
            reveal_strlit("FAHRENHEIT");
            reveal_strlit("kelvin");
            reveal_strlit("KELVIN");
            reveal_strlit("cm");
            reveal_strlit("CM");
            reveal_strlit("inch");
            reveal_strlit("INCH");
            reveal_strlit("km");
            reveal_strlit("KM");
            reveal_strlit("miles");
            reveal_strlit("MILES");
        }
        if matches_ci(s, "celsius", "CELSIUS") {
            Ok(AnyUnit::Temperature(TempUnit::Celsius))
        } else if matches_ci(s, "fahrenheit", "FAHRENHEIT") {
            Ok(AnyUnit::Temperature(TempUnit::Fahrenheit))
        } else if matches_ci(s, "kelvin", "KELVIN") {
            Ok(AnyUnit::Temperature(TempUnit::Kelvin))
        } else if matches_ci(s, "cm", "CM") {
            Ok(AnyUnit::Length(LengthUnit::Cm))
        } else if matches_ci(s, "inch", "INCH") {
            Ok(AnyUnit::Length(LengthUnit::Inch))
        } else if matches_ci(s, "km", "KM") {
            Ok(AnyUnit::Length(LengthUnit::Km))
        } else if matches_ci(s, "miles", "MILES") {
            Ok(AnyUnit::Length(LengthUnit::Miles))
        } else {
            let mut m = String::from_str("Invalid unit: ");
            m.append(s);
            Err(m)
        }
    }
}

/// What a dimension contributes to the `list` command: its header name and
/// the names of its units, in declaration order.
pub trait UnitDimension {
    spec fn spec_dimension_name(&self) -> Seq<char>;

    spec fn spec_unit_names(&self) -> Seq<Seq<char>>;

    fn dimension_name(&self) -> (r: &'static str)
        ensures
            r@ == self.spec_dimension_name(),
    ;

    fn list_units(&self) -> (r: Vec<String>)
        ensures
            r.deep_view() == self.spec_unit_names(),
    ;
}

impl UnitDimension for TempUnit {
    open spec fn spec_dimension_name(&self) -> Seq<char> {
        "Temperature"@
    }

    open spec fn spec_unit_names(&self) -> Seq<Seq<char>> {
        seq!["celsius"@, "fahrenheit"@, "kelvin"@]
    }

    fn dimension_name(&self) -> (r: &'static str) {
        "Temperature"
    }

    fn list_units(&self) -> (r: Vec<String>) {
        let mut v: Vec<String> = Vec::new();
        v.push(String::from_str("celsius"));
        v.push(String::from_str("fahrenheit"));
        v.push(String::from_str("kelvin"));
        proof {
            assert(v.deep_view() =~= self.spec_unit_names());
        }
        v
    }
}

impl UnitDimension for LengthUnit {
    open spec fn spec_dimension_name(&self) -> Seq<char> {
        "Length"@
    }

    open spec fn spec_unit_names(&self) -> Seq<Seq<char>> {
        seq!["cm"@, "inch"@, "km"@, "miles"@]
    }

    fn dimension_name(&self) -> (r: &'static str) {
        "Length"
    }

    fn list_units(&self) -> (r: Vec<String>) {
        let mut v: Vec<String> = Vec::new();
        v.push(String::from_str("cm"));
        v.push(String::from_str("inch"));
        v.push(String::from_str("km"));
        v.push(String::from_str("miles"));
        proof {
            assert(v.deep_view() =~= self.spec_unit_names());
        }
        v
    }
}

/// One dimension's block in the `list` output: a header line followed by
/// one indented line per unit, in declaration order.
pub open spec fn spec_dimension_listing(name: Seq<char>, units: Seq<Seq<char>>) -> Seq<char>
    decreases units.len(),
{
    if units.len() == 0 {
        "\n=== "@ + name + " ===\n"@
    } else {
        spec_dimension_listing(name, units.drop_last()) + "  "@ + units.last() + "\n"@
    }
}

/// The full `list` output: every supported unit, grouped under its
/// dimension's header, dimensions in the fixed order temperature, length.
pub open spec fn spec_all_units_listing() -> Seq<char> {
    "Supported Units:\n"@ + spec_dimension_listing(
        TempUnit::Celsius.spec_dimension_name(),
        TempUnit::Celsius.spec_unit_names(),
    ) + spec_dimension_listing(
        LengthUnit::Cm.spec_dimension_name(),
        LengthUnit::Cm.spec_unit_names(),
    )
}

fn append_dimension_listing<D: UnitDimension>(out: &mut String, dim: &D)
    ensures
        final(out)@ == old(out)@ + spec_dimension_listing(
            dim.spec_dimension_name(),
            dim.spec_unit_names(),
        ),
{
    let ghost start = out@;
    out.append("\n=== ");
    out.append(dim.dimension_name());
    out.append(" ===\n");
    let units = dim.list_units();
    let ghost names = dim.spec_unit_names();
    proof {
        assert(out@ =~= start + spec_dimension_listing(dim.spec_dimension_name(), names.take(0)));
    }
    let mut i: usize = 0;
    while i < units.len()
        invariant
            units.deep_view() == names,
            units@.len() == names.len(),
            0 <= i <= units.len(),
            out@ == start + spec_dimension_listing(dim.spec_dimension_name(), names.take(i as int)),
        decreases units.len() - i,
    {
        out.append("  ");
        out.append(units[i].as_str());
        out.append("\n");
        proof {
            assert(units@[i as int]@ == names[i as int]);
            assert(names.take(i as int + 1).drop_last() =~= names.take(i as int));
            assert(names.take(i as int + 1).last() == names[i as int]);
            assert(out@ =~= start + spec_dimension_listing(
                dim.spec_dimension_name(),
                names.take(i as int + 1),
            ));
        }
        i = i + 1;
    }
    proof {
        assert(names.take(names.len() as int) =~= names);
    }
}

/// Renders the `list` command's output: exactly the units of the unit
/// model, in declaration order, grouped under their dimension headers.
pub fn display_all_units() -> (r: String)
    ensures
        r@ == spec_all_units_listing(),
{
    let mut out = String::from_str("Supported Units:\n");
    append_dimension_listing(&mut out, &TempUnit::Celsius);
    append_dimension_listing(&mut out, &LengthUnit::Cm);
    proof {
        assert(out@ =~= spec_all_units_listing());
    }
    out
}

} // verus!
