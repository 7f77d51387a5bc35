use unitconv::decimal::Decimal;
use unitconv::history::{display_history, load_history, save_history, HistoryEntry};
use unitconv::unit::{display_all_units, get_unit_name, get_unit_symbol, AnyUnit, LengthUnit,
    TempUnit};

#[test]
fn parse_unit_case_insensitive() {
    assert_eq!(
        AnyUnit::from_str("CELSIUS"),
        Ok(AnyUnit::Temperature(TempUnit::Celsius))
    );
    assert_eq!(
        AnyUnit::from_str("Fahrenheit"),
        Ok(AnyUnit::Temperature(TempUnit::Fahrenheit))
    );
    assert_eq!(AnyUnit::from_str("km"), Ok(AnyUnit::Length(LengthUnit::Km)));
    assert_eq!(
        AnyUnit::from_str("MiLeS"),
        Ok(AnyUnit::Length(LengthUnit::Miles))
    );
}

#[test]
fn parse_unit_rejects_unknown() {
    assert_eq!(
        AnyUnit::from_str("lightyear"),
        Err(String::from("Invalid unit: lightyear"))
    );
}

#[test]
fn symbols_and_names() {
    assert_eq!(get_unit_symbol(&AnyUnit::Temperature(TempUnit::Celsius)), "°C");
    assert_eq!(get_unit_symbol(&AnyUnit::Length(LengthUnit::Inch)), "inch");
    assert_eq!(get_unit_name(&AnyUnit::Temperature(TempUnit::Kelvin)), "Kelvin");
}

#[test]
fn list_output_enumerates_all_units() {
    let expected = "Supported Units:\n\
                    \n=== Temperature ===\n  celsius\n  fahrenheit\n  kelvin\n\
                    \n=== Length ===\n  cm\n  inch\n  km\n  miles\n";
    assert_eq!(display_all_units(), expected);
}

fn sample_entry() -> HistoryEntry {
    HistoryEntry {
        original_unit: String::from("°C"),
        target_unit: String::from("°F"),
        original_value: Decimal { scaled: 0 },
        target_value: Decimal { scaled: 32_000_000_000_000 },
    }
}

#[test]
fn empty_ledger_serializes_to_empty_array() {
    assert_eq!(save_history(&Vec::new()), "[]");
}

#[test]
fn empty_array_loads_as_empty_ledger() {
    assert_eq!(load_history("[]"), Ok(Vec::new()));
}

#[test]
fn append_then_load_round_trips() {
    let mut ledger: Vec<HistoryEntry> = load_history("[]").unwrap();
    ledger.push(sample_entry());
    let text = save_history(&ledger);
    let loaded = load_history(&text).unwrap();
    assert_eq!(loaded.len(), 1);
    assert_eq!(loaded[0], sample_entry());
}

#[test]
fn serialized_form_is_canonical() {
    let text = save_history(&vec![sample_entry()]);
    let expected = "[\n  {\n    \"original_unit\": \"°C\",\n    \"target_unit\": \"°F\",\n    \"original_value\": 0.0,\n    \"target_value\": 32.0\n  }\n]";
    assert_eq!(text, expected);
}

#[test]
fn serialized_form_is_valid_json() {
    let mut ledger = vec![sample_entry()];
    ledger.push(HistoryEntry {
        original_unit: String::from("miles"),
        target_unit: String::from("km"),
        original_value: Decimal { scaled: 1_000_000_000_000 },
        target_value: Decimal { scaled: 1_609_344_000_000_000 },
    });
    let text = save_history(&ledger);
    let v: serde_json::Value = serde_json::from_str(&text).unwrap();
    let arr = v.as_array().unwrap();
    assert_eq!(arr.len(), 2);
    assert_eq!(arr[0]["original_unit"], "°C");
    assert_eq!(arr[0]["target_value"], 32.0);
    assert_eq!(arr[1]["original_unit"], "miles");
    assert_eq!(arr[1]["target_value"], 1609.344);
}

#[test]
fn escaped_characters_round_trip() {
    let entry = HistoryEntry {
        original_unit: String::from("a\"b\\c"),
        target_unit: String::from("plain"),
        original_value: Decimal { scaled: -500_000_000_000 },
        target_value: Decimal { scaled: 123_456_789_000_000 },
    };
    let text = save_history(&vec![entry.clone()]);
    let loaded = load_history(&text).unwrap();
    assert_eq!(loaded, vec![entry]);
}

#[test]
fn malformed_history_is_rejected() {
    assert!(load_history("").is_err());
    assert!(load_history("not json").is_err());
    assert!(load_history("[").is_err());
    assert!(load_history("[\n  {\n    \"original_unit\": \"x\"\n  }\n]").is_err());
    assert!(load_history("{}").is_err());
}

#[test]
fn display_empty_history() {
    assert_eq!(display_history(&Vec::new()), "Conversion History is empty.\n");
}

#[test]
fn display_history_lines() {
    let ledger = vec![
        sample_entry(),
        HistoryEntry {
            original_unit: String::from("miles"),
            target_unit: String::from("km"),
            original_value: Decimal { scaled: 1_000_000_000_000 },
            target_value: Decimal { scaled: 1_609_344_000_000_000 },
        },
    ];
    let expected = "Conversion History:\n\
                    1. 0.0000 °C = 32.0000 °F\n\
                    2. 1.0000 miles = 1609.3440 km\n";
    assert_eq!(display_history(&ledger), expected);
}
