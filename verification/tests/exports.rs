use ares_options::error::SliceError;
use ares_options::filament_config_export::{
    optional_bool_vector_export, optional_int_vector_export, optional_int_vector_export_in_range,
    optional_scalar_bool_export, optional_scalar_int_export_in_range, optional_string_vector_export,
    optional_wipe_tower_type_export, optional_wipe_tower_wall_type_export, serialize_config_option_bools,
    serialize_config_option_ints, serialize_config_option_string, serialize_config_option_strings,
};
use ares_options::json::{JsonNumber, JsonValue};
use ares_options::option_map::OptionMap;
use ares_options::slice_options::SliceOptions;

fn integer(n: i64) -> JsonValue {
    if n >= 0 {
        JsonValue::Number(JsonNumber::PosInt(n as u64))
    } else {
        JsonValue::Number(JsonNumber::NegInt(n))
    }
}

fn text(s: &str) -> JsonValue {
    JsonValue::String(s.to_owned())
}

fn texts(values: &[&str]) -> JsonValue {
    JsonValue::Array(values.iter().map(|v| text(v)).collect())
}

fn ints(values: &[i64]) -> JsonValue {
    JsonValue::Array(values.iter().map(|v| integer(*v)).collect())
}

fn bools(values: &[bool]) -> JsonValue {
    JsonValue::Array(values.iter().map(|b| JsonValue::Bool(*b)).collect())
}

fn options(pairs: Vec<(&str, JsonValue)>) -> SliceOptions {
    let mut map = OptionMap::new();
    for (key, value) in pairs {
        map.insert(key.to_owned(), value);
    }
    SliceOptions::new(map)
}

fn message(error: SliceError) -> String {
    match error {
        SliceError::InvalidInput(message) => message,
    }
}

fn strings(values: &[&str]) -> Vec<String> {
    values.iter().map(|v| (*v).to_owned()).collect()
}

#[test]
fn vector_texts() {
    assert_eq!(serialize_config_option_string("a b", 2), "\"a b\"");
    assert_eq!(serialize_config_option_strings(&strings(&["#FFF", "x y"])), "#FFF;\"x y\"");
    assert_eq!(serialize_config_option_strings(&strings(&[""])), "\"\"");
    assert_eq!(serialize_config_option_bools(&vec![true, false, true]), "1,0,1");
    assert_eq!(serialize_config_option_ints(&vec![-1, 0, 25]), "-1,0,25");
    assert_eq!(serialize_config_option_ints(&vec![]), "");
}

#[test]
fn optional_exports_of_each_kind() {
    assert_eq!(optional_string_vector_export(None, "k").ok(), Some(None));
    assert_eq!(optional_string_vector_export(Some(&texts(&["a", "b c"])), "k").ok(), Some(Some("a;\"b c\"".to_owned())));
    assert_eq!(message(optional_string_vector_export(Some(&ints(&[1])), "k").unwrap_err()), "k must contain strings");
    assert_eq!(message(optional_string_vector_export(Some(&text("a")), "k").unwrap_err()), "k must be a string vector");
    assert_eq!(optional_bool_vector_export(Some(&bools(&[false, true])), "k").ok(), Some(Some("0,1".to_owned())));
    assert_eq!(message(optional_bool_vector_export(Some(&ints(&[1])), "k").unwrap_err()), "k must contain bools");
    assert_eq!(message(optional_bool_vector_export(Some(&JsonValue::Bool(true)), "k").unwrap_err()), "k must be a bool vector");
    assert_eq!(optional_int_vector_export(Some(&ints(&[3, -4])), "k").ok(), Some(Some("3,-4".to_owned())));
    assert_eq!(message(optional_int_vector_export(Some(&texts(&["3"])), "k").unwrap_err()), "k must contain integers");
    assert_eq!(message(optional_int_vector_export(Some(&ints(&[1 << 33])), "k").unwrap_err()), "k must contain i32 integers");
    assert_eq!(message(optional_int_vector_export(Some(&integer(3)), "k").unwrap_err()), "k must be an integer vector");
    assert_eq!(optional_int_vector_export_in_range(Some(&ints(&[0, 20])), "k", 0, 20).ok(), Some(Some("0,20".to_owned())));
    assert_eq!(
        message(optional_int_vector_export_in_range(Some(&ints(&[0, 21])), "k", 0, 20).unwrap_err()),
        "k contains invalid value"
    );
    assert_eq!(optional_scalar_bool_export(Some(&JsonValue::Bool(true)), "k").ok(), Some(Some("1".to_owned())));
    assert_eq!(message(optional_scalar_bool_export(Some(&integer(1)), "k").unwrap_err()), "k must be a boolean");
    assert_eq!(optional_scalar_int_export_in_range(Some(&integer(7)), "k", 0, 10).ok(), Some(Some("7".to_owned())));
    assert_eq!(message(optional_scalar_int_export_in_range(Some(&integer(11)), "k", 0, 10).unwrap_err()), "k contains invalid value");
    assert_eq!(message(optional_scalar_int_export_in_range(Some(&integer(1 << 40)), "k", 0, 10).unwrap_err()), "k must be an i32 integer");
    assert_eq!(message(optional_scalar_int_export_in_range(Some(&text("1")), "k", 0, 10).unwrap_err()), "k must be an integer");
    assert_eq!(optional_wipe_tower_type_export(Some(&text("type2"))).ok(), Some(Some("type2".to_owned())));
    assert_eq!(message(optional_wipe_tower_type_export(Some(&text("type3"))).unwrap_err()), "wipe_tower_type contains invalid value");
    assert_eq!(message(optional_wipe_tower_type_export(Some(&integer(1))).unwrap_err()), "wipe_tower_type must be an enum string");
    assert_eq!(optional_wipe_tower_wall_type_export(Some(&text("rib"))).ok(), Some(Some("rib".to_owned())));
    assert_eq!(
        message(optional_wipe_tower_wall_type_export(Some(&text("square"))).unwrap_err()),
        "wipe_tower_wall_type contains invalid value"
    );
}

#[test]
fn colour_exports() {
    let o = options(vec![("filament_colour", texts(&["#FF0000", "#00FF00"])), ("extruder_colour", texts(&["#000000"]))]);
    assert_eq!(o.filament_colour_config_export().ok(), Some(Some("#FF0000;#00FF00".to_owned())));
    assert_eq!(o.extruder_colour_config_export().ok(), Some(Some("#FF0000;#00FF00".to_owned())));
    assert_eq!(o.default_filament_colour_config_export().ok(), Some(None));
    let o = options(vec![("filament_colour", texts(&["#FF0000"]))]);
    assert_eq!(o.extruder_colour_config_export().ok(), Some(None));
}

#[test]
fn filament_config_exports_in_field_order() {
    let o = options(vec![
        ("filament_cooling_moves", ints(&[4])),
        ("wipe_tower_type", text("type1")),
        ("filament_colour", texts(&["#FFFFFF"])),
        ("extruder_colour", texts(&["#000000"])),
        ("filament_map", ints(&[1, 2])),
        ("wipe_tower_filament", integer(0)),
    ]);
    let given = vec![
        ("cooling_tube_length".to_owned(), Ok(Some("5".to_owned()))),
        ("wipe_tower_x".to_owned(), Ok(None)),
    ];
    let exports = o.filament_config_exports(&given).unwrap();
    assert_eq!(exports.fields.len(), 65);
    assert_eq!(exports.fields[0].0, "filament_adhesiveness_category");
    assert_eq!(exports.get("filament_cooling_moves").map(|s| s.as_str()), Some("4"));
    assert_eq!(exports.get("wipe_tower_type").map(|s| s.as_str()), Some("type1"));
    assert_eq!(exports.get("extruder_colour").map(|s| s.as_str()), Some("#FFFFFF"));
    assert_eq!(exports.get("filament_map").map(|s| s.as_str()), Some("1,2"));
    assert_eq!(exports.get("wipe_tower_filament").map(|s| s.as_str()), Some("0"));
    assert_eq!(exports.get("cooling_tube_length").map(|s| s.as_str()), Some("5"));
    assert_eq!(exports.get("wipe_tower_x"), None);
    assert_eq!(exports.get("filament_soluble"), None);
}

#[test]
fn filament_config_exports_stop_at_the_first_error() {
    let o = options(vec![
        ("filament_cooling_moves", ints(&[21])),
        ("wipe_tower_type", text("type9")),
    ]);
    let e = o.filament_config_exports(&vec![]).unwrap_err();
    assert_eq!(message(e), "filament_cooling_moves contains invalid value");

    let o = options(vec![]);
    let given = vec![(
        "filament_change_length".to_owned(),
        Err(SliceError::InvalidInput("filament_change_length must be a number".to_owned())),
    )];
    let e = o.filament_config_exports(&given).unwrap_err();
    assert_eq!(message(e), "filament_change_length must be a number");
}
