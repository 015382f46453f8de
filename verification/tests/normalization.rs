use ares_options::error::SliceError;
use ares_options::fdm_normalization::{
    disable_bool_array, integer_value, parse_bool, parse_non_negative_integer, parse_print_sequence,
    parse_timelapse_type,
};
use ares_options::json::{json_equal, JsonNumber, JsonValue};
use ares_options::option_map::OptionMap;
use ares_options::slice_options::SliceOptions;

fn integer(n: i64) -> JsonValue {
    if n >= 0 {
        JsonValue::Number(JsonNumber::PosInt(n as u64))
    } else {
        JsonValue::Number(JsonNumber::NegInt(n))
    }
}

fn text(s: &str) -> JsonValue {
    JsonValue::String(s.to_owned())
}

fn bools(values: &[bool]) -> JsonValue {
    JsonValue::Array(values.iter().map(|b| JsonValue::Bool(*b)).collect())
}

fn options(pairs: Vec<(&str, JsonValue)>) -> SliceOptions {
    let mut map = OptionMap::new();
    for (key, value) in pairs {
        map.insert(key.to_owned(), value);
    }
    SliceOptions::new(map)
}

fn message(error: SliceError) -> String {
    match error {
        SliceError::InvalidInput(message) => message,
    }
}

fn value_is(options: &SliceOptions, key: &str, expected: &JsonValue) -> bool {
    match options.values().get(key) {
        Some(v) => json_equal(v, expected),
        None => false,
    }
}

#[test]
fn option_map_reads_back_what_was_written() {
    let mut map = OptionMap::new();
    map.insert("a".to_owned(), integer(1));
    map.insert("b".to_owned(), text("x"));
    map.insert("a".to_owned(), integer(2));
    assert_eq!(map.len(), 2);
    assert!(json_equal(map.get("a").unwrap(), &integer(2)));
    assert!(map.contains_key("b"));
    map.remove("b");
    assert!(!map.contains_key("b"));
    assert!(map.get("b").is_none());
    assert_eq!(map.len(), 1);
}

#[test]
fn scalar_parsers() {
    assert_eq!(parse_bool("k", &JsonValue::Bool(true)).ok(), Some(true));
    assert_eq!(message(parse_bool("k", &integer(1)).unwrap_err()), "k must be a boolean");
    assert_eq!(parse_non_negative_integer("k", &integer(3)).ok(), Some(3));
    assert_eq!(parse_non_negative_integer("k", &text("12")).ok(), Some(12));
    assert_eq!(message(parse_non_negative_integer("k", &integer(-1)).unwrap_err()), "k must be a non-negative integer");
    assert_eq!(message(parse_non_negative_integer("k", &text("x")).unwrap_err()), "k must be an integer");
    assert_eq!(message(parse_non_negative_integer("k", &JsonValue::Null).unwrap_err()), "k must be an integer");
    assert_eq!(parse_print_sequence(None).ok(), Some("by layer"));
    assert_eq!(parse_print_sequence(Some(&text("by object"))).ok(), Some("by object"));
    assert_eq!(
        message(parse_print_sequence(Some(&text("random"))).unwrap_err()),
        "print_sequence must be a supported Orca print sequence"
    );
    assert_eq!(parse_timelapse_type(None).ok(), Some(None));
    assert_eq!(parse_timelapse_type(Some(&text("1"))).ok(), Some(Some("1")));
    assert_eq!(
        message(parse_timelapse_type(Some(&integer(1))).unwrap_err()),
        "timelapse_type must be a supported Orca timelapse type"
    );
    assert!(json_equal(&integer_value(-4), &integer(-4)));
    assert!(json_equal(&integer_value(4), &integer(4)));
}

#[test]
fn disabling_a_bool_array() {
    let mut o = options(vec![("r", bools(&[true, true, false]))]);
    disable_bool_array(&mut o, "r", false).unwrap();
    assert!(value_is(&o, "r", &bools(&[false, false, false])));
    let mut o = options(vec![]);
    disable_bool_array(&mut o, "r", false).unwrap();
    assert!(value_is(&o, "r", &bools(&[false])));
    let mut o = options(vec![("r", JsonValue::Array(vec![JsonValue::Null, JsonValue::Bool(true)]))]);
    assert_eq!(message(disable_bool_array(&mut o, "r", false).unwrap_err()), "r must be a boolean array");
    disable_bool_array(&mut o, "r", true).unwrap();
    assert!(value_is(&o, "r", &bools(&[false, false])));
}

#[test]
fn legacy_extruder_becomes_infill_and_wall_filament() {
    let mut o = options(vec![("extruder", integer(2)), ("wall_filament", integer(1))]);
    o.normalize_fdm(2, Ok(integer(0))).unwrap();
    assert!(o.values().get("extruder").is_none());
    assert!(value_is(&o, "sparse_infill_filament", &integer(2)));
    assert!(value_is(&o, "wall_filament", &integer(1)));
    assert!(value_is(&o, "solid_infill_filament", &integer(2)));
    assert!(o.values().get("resolution").is_none());

    let mut o = options(vec![("extruder", integer(0))]);
    o.normalize_fdm(1, Ok(integer(0))).unwrap();
    assert!(o.values().get("extruder").is_none());
    assert!(o.values().get("sparse_infill_filament").is_none());

    let mut o = options(vec![("extruder", integer(-1))]);
    let e = o.normalize_fdm(1, Ok(integer(0))).unwrap_err();
    assert_eq!(message(e), "extruder must be a non-negative integer");
    assert!(value_is(&o, "extruder", &integer(-1)));
}

#[test]
fn spiral_mode_disables_walls_and_infill() {
    let mut o = options(vec![
        ("spiral_mode", JsonValue::Bool(true)),
        ("retract_when_changing_layer", bools(&[true, true])),
        ("resolution", integer(5)),
    ]);
    o.normalize_fdm(0, Ok(integer(7))).unwrap();
    assert!(value_is(&o, "retract_when_changing_layer", &bools(&[false, false])));
    assert!(value_is(&o, "filament_retract_when_changing_layer", &bools(&[false])));
    assert!(value_is(&o, "wall_loops", &integer(1)));
    assert!(value_is(&o, "alternate_extra_wall", &JsonValue::Bool(false)));
    assert!(value_is(&o, "top_shell_layers", &integer(0)));
    assert!(value_is(&o, "sparse_infill_density", &integer(0)));
    assert!(value_is(&o, "resolution", &integer(7)));

    let mut o = options(vec![("resolution", integer(5))]);
    let e = o.normalize_fdm(0, Err(SliceError::InvalidInput("resolution must be a number".to_owned()))).unwrap_err();
    assert_eq!(message(e), "resolution must be a number");
}

#[test]
fn single_filament_turns_the_prime_tower_off() {
    let mut o = options(vec![("enable_prime_tower", JsonValue::Bool(true))]);
    o.normalize_fdm(1, Ok(integer(0))).unwrap();
    assert!(value_is(&o, "enable_prime_tower", &JsonValue::Bool(false)));
    assert!(value_is(&o, "independent_support_layer_height", &JsonValue::Bool(true)));

    let mut o = options(vec![("enable_prime_tower", JsonValue::Bool(true))]);
    o.normalize_fdm(2, Ok(integer(0))).unwrap();
    assert!(value_is(&o, "enable_prime_tower", &JsonValue::Bool(true)));
    assert!(value_is(&o, "independent_support_layer_height", &JsonValue::Bool(false)));

    let mut o = options(vec![("enable_prime_tower", JsonValue::Bool(true)), ("timelapse_type", text("1"))]);
    o.normalize_fdm(1, Ok(integer(0))).unwrap();
    assert!(value_is(&o, "enable_prime_tower", &JsonValue::Bool(true)));
}

#[test]
fn second_pass_reports_the_keys_it_changed_and_settles() {
    let mut o = options(vec![
        ("enable_prime_tower", JsonValue::Bool(true)),
        ("print_sequence", text("by object")),
    ]);
    let changed = o.normalize_fdm_2(2, 2).unwrap();
    assert_eq!(changed, vec!["enable_prime_tower".to_owned()]);
    assert!(value_is(&o, "enable_prime_tower", &JsonValue::Bool(false)));
    let again = o.normalize_fdm_2(2, 2).unwrap();
    assert!(again.is_empty());

    let mut o = options(vec![("enable_prime_tower", JsonValue::Bool(true))]);
    let changed = o.normalize_fdm_2(1, 3).unwrap();
    assert_eq!(changed, vec!["independent_support_layer_height".to_owned()]);
    assert!(value_is(&o, "independent_support_layer_height", &JsonValue::Bool(false)));
    assert!(o.normalize_fdm_2(1, 3).unwrap().is_empty());

    let mut o = options(vec![
        ("enable_prime_tower", JsonValue::Bool(true)),
        ("enable_wrapping_detection", JsonValue::Bool(true)),
    ]);
    let changed = o.normalize_fdm_2(1, 1).unwrap();
    assert_eq!(changed, vec!["independent_support_layer_height".to_owned()]);

    let mut o = options(vec![("enable_prime_tower", integer(1))]);
    assert_eq!(message(o.normalize_fdm_2(1, 1).unwrap_err()), "enable_prime_tower must be a boolean");

    let mut o = options(vec![("enable_prime_tower", JsonValue::Bool(true))]);
    assert!(o.normalize_fdm_2(1, 0).unwrap().is_empty());
    assert!(o.values().get("independent_support_layer_height").is_none());
}

#[test]
fn option_map_entries_come_in_key_order() {
    let mut map = OptionMap::new();
    map.insert("wall_loops".to_owned(), integer(2));
    map.insert("brim_type".to_owned(), text("no_brim"));
    map.insert("layer_height".to_owned(), text("0.2"));
    map.insert("brim_type".to_owned(), text("outer_only"));
    map.remove("layer_height");
    map.insert("Z".to_owned(), integer(1));
    let keys: Vec<&str> = map.entries().iter().map(|(k, _)| k.as_str()).collect();
    assert_eq!(keys, vec!["Z", "brim_type", "wall_loops"]);
    assert!(json_equal(map.get("brim_type").unwrap(), &text("outer_only")));
}
