use ares_options::extruder_variant::split_variant_tokens;
use ares_options::different_extruders::optional_enum_vector;
use ares_options::error::SliceError;
use ares_options::extruder_index::{
    checked_index, extruder_variant_string, generated_extruder_id, int_vector, optional_string_vector,
    split_comma_token_compress, string_get_at, ExtruderIndexIdMapLookup,
};
use ares_options::json::{json_equal, JsonNumber, JsonValue};
use ares_options::option_map::OptionMap;
use ares_options::slice_options::SliceOptions;

fn integer(n: i64) -> JsonValue {
    if n >= 0 {
        JsonValue::Number(JsonNumber::PosInt(n as u64))
    } else {
        JsonValue::Number(JsonNumber::NegInt(n))
    }
}

fn text(s: &str) -> JsonValue {
    JsonValue::String(s.to_owned())
}

fn texts(values: &[&str]) -> JsonValue {
    JsonValue::Array(values.iter().map(|v| text(v)).collect())
}

fn ints(values: &[i64]) -> JsonValue {
    JsonValue::Array(values.iter().map(|v| integer(*v)).collect())
}

fn options(pairs: Vec<(&str, JsonValue)>) -> SliceOptions {
    let mut map = OptionMap::new();
    for (key, value) in pairs {
        map.insert(key.to_owned(), value);
    }
    SliceOptions::new(map)
}

fn message(error: SliceError) -> String {
    match error {
        SliceError::InvalidInput(message) => message,
    }
}

fn strings(values: &[&str]) -> Vec<String> {
    values.iter().map(|v| (*v).to_owned()).collect()
}

#[test]
fn variant_names_and_vectors() {
    assert_eq!(extruder_variant_string("Direct Drive", "High Flow").ok(), Some("Direct Drive High Flow".to_owned()));
    assert_eq!(
        message(extruder_variant_string("Hotend", "Standard").unwrap_err()),
        "extruder_type has unknown enum value"
    );
    assert_eq!(
        message(extruder_variant_string("Bowden", "Huge").unwrap_err()),
        "nozzle_volume_type has unknown enum value"
    );
    assert_eq!(optional_string_vector(None, "k").ok(), Some(None));
    assert_eq!(optional_string_vector(Some(&texts(&["a"])), "k").ok(), Some(Some(strings(&["a"]))));
    assert_eq!(message(optional_string_vector(Some(&texts(&[])), "k").unwrap_err()), "k must not be empty");
    assert_eq!(message(optional_string_vector(Some(&ints(&[1])), "k").unwrap_err()), "k must contain strings");
    assert_eq!(message(optional_string_vector(Some(&text("a")), "k").unwrap_err()), "k must be a string vector");
    assert_eq!(int_vector(Some(&ints(&[1, -2])), "k").ok(), Some(vec![1, -2]));
    assert_eq!(message(int_vector(None, "k").unwrap_err()), "k must be an integer vector");
    assert_eq!(message(int_vector(Some(&ints(&[1 << 40])), "k").unwrap_err()), "k must contain i32 integers");
    let v = strings(&["x", "y"]);
    assert_eq!(string_get_at(&v, "k", 1).ok(), Some("y"));
    assert_eq!(string_get_at(&v, "k", 7).ok(), Some("x"));
    assert_eq!(message(string_get_at(&Vec::new(), "k", 0).unwrap_err()), "k must not be empty");
    assert_eq!(checked_index(3, 4).ok(), Some(12));
    assert_eq!(message(checked_index(usize::MAX, 2).unwrap_err()), "extruder index overflows isize");
}

#[test]
fn comma_runs_count_as_one_separator() {
    assert_eq!(split_comma_token_compress("a,,b,c"), strings(&["a", "b", "c"]));
    assert_eq!(split_comma_token_compress(""), strings(&[""]));
    assert_eq!(split_comma_token_compress("a,"), strings(&["a", ""]));
}

#[test]
fn generated_ids_follow_the_variant_owners() {
    let list = strings(&["Direct Drive Standard,Direct Drive High Flow", "Bowden Standard"]);
    assert_eq!(generated_extruder_id(Some(&list), 0), 1);
    assert_eq!(generated_extruder_id(Some(&list), 1), 1);
    assert_eq!(generated_extruder_id(Some(&list), 2), 2);
    assert_eq!(generated_extruder_id(Some(&list), 3), 0);
    assert_eq!(generated_extruder_id(None, 0), 0);
    let blanks = strings(&[" , x", "y"]);
    assert_eq!(generated_extruder_id(Some(&blanks), 0), 1);
    assert_eq!(generated_extruder_id(Some(&blanks), 1), 2);
}

#[test]
fn index_lookup_without_ids() {
    let o = options(vec![("variant", texts(&["Direct Drive Standard", "Bowden High Flow"]))]);
    assert_eq!(o.get_index_for_extruder_no_id("Bowden", "High Flow", "variant", 3).ok(), Some(3));
    assert_eq!(o.get_index_for_extruder_no_id("Bowden", "Standard", "variant", 3).ok(), Some(-1));
    assert_eq!(o.get_index_for_extruder_no_id("Bowden", "Standard", "missing", 3).ok(), Some(-1));
    assert_eq!(
        message(o.get_index_for_extruder_no_id("Pellet", "Standard", "variant", 1).unwrap_err()),
        "extruder_type has unknown enum value"
    );
}

fn lookup<'a>(id: i32, id_name: &'a str) -> ExtruderIndexIdMapLookup<'a> {
    ExtruderIndexIdMapLookup {
        extruder_or_filament_id: id,
        id_name,
        extruder_type: "Direct Drive",
        nozzle_volume_type: "Standard",
        variant_name: "variant",
        stride: 2,
    }
}

#[test]
fn index_lookup_with_complete_ids() {
    let o = options(vec![
        ("variant", texts(&["Direct Drive Standard", "Direct Drive Standard"])),
        ("ids", ints(&[1, 2])),
    ]);
    assert_eq!(o.get_index_for_extruder_complete_id_map(lookup(2, "ids")).ok(), Some(2));
    assert_eq!(o.get_index_for_extruder_complete_id_map(lookup(3, "ids")).ok(), Some(-1));
    let short = options(vec![
        ("variant", texts(&["Direct Drive Standard", "Direct Drive Standard"])),
        ("ids", ints(&[1])),
    ]);
    assert_eq!(
        message(short.get_index_for_extruder_complete_id_map(lookup(1, "ids")).unwrap_err()),
        "ids must cover every variant"
    );
}

#[test]
fn index_lookup_with_generated_ids() {
    let o = options(vec![
        ("variant", texts(&["Direct Drive Standard", "Direct Drive Standard"])),
        ("ids", ints(&[1])),
        ("extruder_variant_list", texts(&["Direct Drive Standard", "Direct Drive Standard"])),
    ]);
    assert_eq!(o.get_index_for_extruder_generated_id_map(lookup(2, "ids")).ok(), Some(2));
    assert_eq!(o.get_index_for_extruder_generated_id_map(lookup(1, "ids")).ok(), Some(0));
    let long = options(vec![("variant", texts(&["Direct Drive Standard"])), ("ids", ints(&[1]))]);
    assert_eq!(
        message(long.get_index_for_extruder_generated_id_map(lookup(1, "ids")).unwrap_err()),
        "ids must be shorter than variant list"
    );
}

#[test]
fn variant_list_defaults_and_errors() {
    let o = options(vec![]);
    assert_eq!(o.extruder_variant_list(2).ok(), Some(strings(&["Direct Drive Standard", "Direct Drive Standard"])));
    let o = options(vec![("extruder_variant_list", texts(&[]))]);
    assert_eq!(message(o.extruder_variant_list(1).unwrap_err()), "extruder_variant_list must not be empty");
    let o = options(vec![("extruder_variant_list", ints(&[1]))]);
    assert_eq!(message(o.extruder_variant_list(1).unwrap_err()), "extruder_variant_list must be a string array");
}

#[test]
fn extending_the_variant_list_derives_ids() {
    let mut o = options(vec![("extruder_variant_list", texts(&["Direct Drive Standard,Direct Drive High Flow"]))]);
    o.extend_extruder_variant(2).unwrap();
    let list = o.values().get("extruder_variant_list").unwrap();
    assert!(json_equal(
        list,
        &texts(&["Direct Drive Standard,Direct Drive High Flow", "Direct Drive Standard,Direct Drive High Flow"])
    ));
    assert!(json_equal(o.values().get("printer_extruder_id").unwrap(), &ints(&[1, 1, 2, 2])));
    assert!(json_equal(
        o.values().get("printer_extruder_variant").unwrap(),
        &texts(&[
            "Direct Drive Standard",
            "Direct Drive High Flow",
            "Direct Drive Standard",
            "Direct Drive High Flow"
        ])
    ));

    let mut o = options(vec![]);
    o.extend_extruder_variant(1).unwrap();
    assert!(json_equal(o.values().get("printer_extruder_id").unwrap(), &ints(&[1])));

    let mut o = options(vec![("extruder_variant_list", text("x"))]);
    assert!(o.extend_extruder_variant(1).is_err());
    assert!(json_equal(o.values().get("extruder_variant_list").unwrap(), &text("x")));
}

#[test]
fn different_extruders_compare_type_and_volume() {
    let allowed = ["Direct Drive", "Bowden"];
    assert_eq!(optional_enum_vector(None, "extruder_type", &allowed).ok(), Some(None));
    assert_eq!(
        message(optional_enum_vector(Some(&texts(&["Pellet"])), "extruder_type", &allowed).unwrap_err()),
        "extruder_type has unknown enum value"
    );
    assert_eq!(
        message(optional_enum_vector(Some(&text("Bowden")), "extruder_type", &allowed).unwrap_err()),
        "extruder_type must be an enum vector"
    );
    let o = options(vec![
        ("extruder_type", texts(&["Direct Drive", "Bowden"])),
        ("nozzle_volume_type", texts(&["Standard", "Standard"])),
    ]);
    assert_eq!(o.is_using_different_extruders(2).ok(), Some(true));
    assert_eq!(o.is_using_different_extruders(1).ok(), Some(false));
    let o = options(vec![
        ("extruder_type", texts(&["Bowden", "Bowden"])),
        ("nozzle_volume_type", texts(&["Standard", "Standard"])),
    ]);
    assert_eq!(o.is_using_different_extruders(2).ok(), Some(false));
    let o = options(vec![("extruder_type", texts(&["Direct Drive", "Bowden"]))]);
    assert_eq!(o.is_using_different_extruders(2).ok(), Some(false));
}

#[test]
fn variant_tokens_of_one_extruder() {
    assert_eq!(split_variant_tokens(""), strings(&[""]));
    assert_eq!(split_variant_tokens("a,,,b"), strings(&["a", "b"]));
    assert_eq!(split_variant_tokens(",a,"), strings(&["", "a", ""]));
}

#[test]
fn extending_twice_changes_nothing() {
    let mut o = options(vec![("extruder_variant_list", texts(&["Bowden Standard", "Direct Drive High Flow,Bowden Standard"]))]);
    o.extend_extruder_variant(3).unwrap();
    let first: Vec<(String, String)> = o
        .values()
        .entries()
        .iter()
        .map(|(k, v)| (k.clone(), format!("{:?}", v)))
        .collect();
    o.extend_extruder_variant(3).unwrap();
    let second: Vec<(String, String)> = o
        .values()
        .entries()
        .iter()
        .map(|(k, v)| (k.clone(), format!("{:?}", v)))
        .collect();
    assert_eq!(first, second);
    assert!(json_equal(o.values().get("printer_extruder_id").unwrap(), &ints(&[1, 2, 2, 3])));
}
