use ares_options::flow_ratios::{hardware_value, parse_set_other_flow_ratios};
use ares_options::bed_temperature::{invalid_bed_temperature_formula, invalid_curr_bed_type};
use ares_options::auxiliary_fan::{additional_cooling_fan_speed, auxiliary_fan, first_integer};
use ares_options::fan_speedup::scalar_bool;
use ares_options::bed_temperature::{
    default_first_layer_bed_temperature, first_layer_bed_temperature_key,
    other_layer_bed_temperature_key, BedTemperatureFormula,
};
use ares_options::chamber_temperature::{parse_bool_text, parse_bool_vector};
use ares_options::error::SliceError;
use ares_options::exhaust_fan::{bool_vector, selected_speed, support_air_filtration, value_at};
use ares_options::flow_ratios::{parse_extrusion_options, RoleFilamentSelectors, SupportFilamentSelector};
use ares_options::json::{JsonNumber, JsonValue};
use ares_options::option_map::OptionMap;
use ares_options::slice_options::SliceOptions;

fn integer(n: i64) -> JsonValue {
    if n >= 0 {
        JsonValue::Number(JsonNumber::PosInt(n as u64))
    } else {
        JsonValue::Number(JsonNumber::NegInt(n))
    }
}

fn float(x: f64) -> JsonValue {
    JsonValue::Number(JsonNumber::Float(x.to_bits()))
}

fn text(s: &str) -> JsonValue {
    JsonValue::String(s.to_owned())
}

fn options(pairs: Vec<(&str, JsonValue)>) -> SliceOptions {
    let mut map = OptionMap::new();
    for (key, value) in pairs {
        map.insert(key.to_owned(), value);
    }
    SliceOptions::new(map)
}

fn message(error: SliceError) -> String {
    match error {
        SliceError::InvalidInput(message) => message,
    }
}

#[test]
fn boolean_lists_read_from_text_arrays_and_scalars() {
    assert_eq!(parse_bool_text("k", "true; false ,true").ok(), Some(vec![true, false, true]));
    assert_eq!(message(parse_bool_text("k", "true;;false").unwrap_err()), "k must not be empty");
    assert_eq!(message(parse_bool_text("k", "True").unwrap_err()), "k must contain lowercase boolean values");
    assert_eq!(parse_bool_vector("k", &JsonValue::Bool(false)).ok(), Some(vec![false]));
    let arr = JsonValue::Array(vec![JsonValue::Bool(true), JsonValue::Bool(false)]);
    assert_eq!(parse_bool_vector("k", &arr).ok(), Some(vec![true, false]));
    assert_eq!(message(parse_bool_vector("k", &JsonValue::Array(vec![])).unwrap_err()), "k must not be empty");
    assert_eq!(
        message(parse_bool_vector("k", &JsonValue::Array(vec![integer(1)])).unwrap_err()),
        "k must contain boolean values"
    );
    assert_eq!(message(parse_bool_vector("k", &integer(1)).unwrap_err()), "k must be a boolean or boolean list");
    assert_eq!(bool_vector("k", None, &[true]).ok(), Some(vec![true]));
}

#[test]
fn air_filtration_support() {
    assert_eq!(support_air_filtration(None).ok(), Some(true));
    assert_eq!(support_air_filtration(Some(&text("false"))).ok(), Some(false));
    assert_eq!(support_air_filtration(Some(&JsonValue::Bool(false))).ok(), Some(false));
    assert_eq!(
        message(support_air_filtration(Some(&text("yes"))).unwrap_err()),
        "support_air_filtration must be a lowercase boolean"
    );
    assert_eq!(
        message(support_air_filtration(Some(&integer(1))).unwrap_err()),
        "support_air_filtration must be a boolean"
    );
}

#[test]
fn speeds_take_the_highest_active_slot() {
    assert_eq!(value_at(&[1, 2, 3], 1), 2);
    assert_eq!(value_at(&[1, 2, 3], 9), 3);
    assert_eq!(selected_speed(&[true, false, true], &[true], &[10, 90, 40]), Some(40));
    assert_eq!(selected_speed(&[false], &[true], &[10, 90]), None);
    assert_eq!(selected_speed(&[true], &[true, false], &[70]), Some(70));
}

#[test]
fn exhaust_fan_control_per_phase() {
    let o = options(vec![]);
    let c = o.exhaust_fan_control(Ok(vec![1]), Ok(vec![1])).unwrap();
    assert_eq!((c.during_print_speed(), c.completion_speed()), (None, None));

    let o = options(vec![
        ("activate_air_filtration", JsonValue::Array(vec![JsonValue::Bool(true), JsonValue::Bool(false)])),
        ("during_print_exhaust_fan_speed", text("30,70")),
    ]);
    let c = o.exhaust_fan_control(Ok(vec![30, 70]), Ok(vec![1])).unwrap();
    assert_eq!((c.during_print_speed(), c.completion_speed()), (Some(30), Some(80)));

    let o = options(vec![
        ("activate_air_filtration", JsonValue::Bool(true)),
        ("support_air_filtration", JsonValue::Bool(false)),
    ]);
    let c = o.exhaust_fan_control(Ok(vec![1]), Ok(vec![1])).unwrap();
    assert_eq!((c.during_print_speed(), c.completion_speed()), (None, None));

    let o = options(vec![
        ("activate_air_filtration", JsonValue::Bool(true)),
        ("complete_print_exhaust_fan_speed", text("101")),
    ]);
    let e = o.exhaust_fan_control(Ok(vec![1]), Ok(vec![101])).unwrap_err();
    assert_eq!(message(e), "complete_print_exhaust_fan_speed must be a percent from 0 to 100");
}

#[test]
fn chamber_temperature_is_the_highest_when_activated() {
    let o = options(vec![]);
    assert_eq!(o.chamber_temperature_control(Ok(vec![50])).unwrap().temperature(), None);
    let o = options(vec![
        ("activate_chamber_temp_control", text("true;false")),
        ("chamber_temperature", text("40,55")),
    ]);
    assert_eq!(o.chamber_temperature_control(Ok(vec![40, 55])).unwrap().temperature(), Some(55));
    let o = options(vec![("activate_chamber_temp_control", JsonValue::Bool(true))]);
    assert_eq!(o.chamber_temperature_control(Ok(vec![40])).unwrap().temperature(), None);
    let o = options(vec![
        ("support_chamber_temp_control", JsonValue::Bool(false)),
        ("activate_chamber_temp_control", JsonValue::Bool(true)),
        ("chamber_temperature", integer(60)),
    ]);
    assert_eq!(o.chamber_temperature_control(Ok(vec![60])).unwrap().temperature(), None);
    let o = options(vec![("activate_chamber_temp_control", text("True"))]);
    assert_eq!(
        message(o.chamber_temperature_control(Ok(vec![1])).unwrap_err()),
        "activate_chamber_temp_control must contain lowercase boolean values"
    );
}

#[test]
fn bed_temperature_keys_and_defaults() {
    assert_eq!(first_layer_bed_temperature_key("Cool Plate").ok(), Some("cool_plate_temp_initial_layer"));
    assert_eq!(first_layer_bed_temperature_key("SuperTack Plate").ok(), Some("supertack_plate_temp_initial_layer"));
    assert_eq!(other_layer_bed_temperature_key("High Temp Plate").ok(), Some("hot_plate_temp"));
    assert_eq!(
        message(other_layer_bed_temperature_key("Glass").unwrap_err()),
        "curr_bed_type has an invalid value"
    );
    assert_eq!(default_first_layer_bed_temperature("cool_plate_temp_initial_layer"), 35);
    assert_eq!(default_first_layer_bed_temperature("textured_cool_plate_temp_initial_layer"), 40);
    assert_eq!(default_first_layer_bed_temperature("textured_plate_temp_initial_layer"), 45);
}

#[test]
fn bed_temperature_follows_the_formula() {
    let o = options(vec![]);
    assert!(matches!(BedTemperatureFormula::parse(&o), Ok(BedTemperatureFormula::HighestTemp)));
    assert_eq!(o.curr_bed_type().ok(), Some("Cool Plate"));
    assert_eq!(o.first_layer_bed_temperature(Ok(vec![99])).unwrap().value(), 35);
    assert_eq!(o.first_layer_bed_temperature_values(Ok(vec![99])).ok(), Some(vec![35]));

    let o = options(vec![
        ("curr_bed_type", text("High Temp Plate")),
        ("hot_plate_temp_initial_layer", text("50,60")),
    ]);
    assert_eq!(o.first_layer_bed_temperature(Ok(vec![50, 60])).unwrap().value(), 60);
    assert_eq!(o.other_layer_bed_temperature(Ok(vec![1]), Ok(vec![50, 60])).unwrap().value(), 60);

    let o = options(vec![
        ("curr_bed_type", text("High Temp Plate")),
        ("bed_temperature_formula", text("by_first_filament")),
        ("hot_plate_temp_initial_layer", text("50,60")),
        ("hot_plate_temp", text("70,80")),
    ]);
    assert_eq!(o.first_layer_bed_temperature(Ok(vec![50, 60])).unwrap().value(), 50);
    assert_eq!(o.other_layer_bed_temperature(Ok(vec![70, 80]), Ok(vec![50, 60])).unwrap().value(), 70);
    assert_eq!(BedTemperatureFormula::FirstFilament.select(&[5, 9]), 5);
    assert_eq!(BedTemperatureFormula::HighestTemp.select(&[5, 9, 2]), 9);

    let o = options(vec![("curr_bed_type", text("Glass"))]);
    assert_eq!(message(o.first_layer_bed_temperature(Ok(vec![1])).unwrap_err()), "curr_bed_type has an invalid value");
    let o = options(vec![("bed_temperature_formula", text("x"))]);
    assert_eq!(
        message(o.first_layer_bed_temperature(Ok(vec![1])).unwrap_err()),
        "bed_temperature_formula has an invalid value"
    );
    let o = options(vec![("curr_bed_type", integer(1))]);
    assert_eq!(message(o.curr_bed_type().unwrap_err()), "curr_bed_type must be a string");
}

fn selectors(o: &SliceOptions, count: usize, not_for_body: bool) -> RoleFilamentSelectors {
    parse_extrusion_options(o, count, not_for_body).unwrap()
}

#[test]
fn extrusion_roles_choose_their_filaments() {
    let s = selectors(&options(vec![]), 1, false);
    assert_eq!(
        s,
        RoleFilamentSelectors {
            wall: 0,
            sparse_infill: 0,
            solid_infill: 0,
            support: 0,
            support_interface: 0,
            support_body: 0
        }
    );
    let o = options(vec![
        ("wall_filament", text(" 2 ")),
        ("sparse_infill_filament", float(3.0)),
        ("solid_infill_filament", integer(4)),
        ("support_filament", integer(0)),
        ("support_interface_filament", integer(1)),
    ]);
    let s = selectors(&o, 2, true);
    assert_eq!((s.wall, s.sparse_infill, s.solid_infill), (1, 2, 3));
    assert_eq!((s.support, s.support_interface, s.support_body), (0, 0, 1));
    assert_eq!(selectors(&o, 1, true).support_body, 0);
    assert_eq!(selectors(&o, 2, false).support_body, 0);

    let o = options(vec![("support_filament", integer(3))]);
    assert_eq!(selectors(&o, 2, true).support_body, 2);
}

#[test]
fn filament_numbers_go_through_f64() {
    let o = options(vec![("wall_filament", integer(9_007_199_254_740_993))]);
    assert_eq!(selectors(&o, 1, false).wall, 9_007_199_254_740_991);
    let o = options(vec![("wall_filament", JsonValue::Number(JsonNumber::PosInt(u64::MAX)))]);
    assert_eq!(selectors(&o, 1, false).wall, u64::MAX - 1);
    let o = options(vec![("wall_filament", float(1.0e30))]);
    assert_eq!(
        message(parse_extrusion_options(&o, 1, false).unwrap_err()),
        "wall_filament must be a positive integer"
    );
}

#[test]
fn extrusion_role_errors() {
    let cases = vec![
        ("wall_filament", integer(0), "wall_filament must be positive"),
        ("wall_filament", integer(-1), "wall_filament must be a positive integer"),
        ("sparse_infill_filament", float(2.5), "sparse_infill_filament must be a positive integer"),
        ("solid_infill_filament", text("x"), "solid_infill_filament must be a positive integer"),
        ("support_filament", JsonValue::Bool(true), "support_filament must be a non-negative integer"),
        ("support_interface_filament", text("-2"), "support_interface_filament must be a non-negative integer"),
    ];
    for (key, value, expected) in cases {
        let o = options(vec![(key, value)]);
        assert_eq!(message(parse_extrusion_options(&o, 1, false).unwrap_err()), expected);
    }
    assert_eq!(SupportFilamentSelector::Fixed(4).selector(), 4);
    assert_eq!(SupportFilamentSelector::Auto.selector(), 0);
    assert_eq!(
        SupportFilamentSelector::Auto.support_selector(SupportFilamentSelector::Fixed(0), true, 3),
        1
    );
    assert_eq!(
        SupportFilamentSelector::Auto.support_selector(SupportFilamentSelector::Auto, true, 3),
        0
    );
}

#[test]
fn temperature_value_lists() {
    let o = options(vec![("curr_bed_type", text("Engineering Plate"))]);
    assert_eq!(o.other_layer_bed_temperature_values(Ok(vec![1]), Ok(vec![9])).ok(), Some(vec![45]));
    let o = options(vec![("curr_bed_type", text("Engineering Plate")), ("eng_plate_temp", text("60,70"))]);
    assert_eq!(o.other_layer_bed_temperature_values(Ok(vec![60, 70]), Ok(vec![9])).ok(), Some(vec![60, 70]));
    assert_eq!(message(invalid_curr_bed_type("x y")), "curr_bed_type x y");
    assert_eq!(message(invalid_bed_temperature_formula("z")), "bed_temperature_formula z");

    let o = options(vec![]);
    assert_eq!(o.chamber_temperature_values(Ok(vec![50])).ok(), Some(vec![0]));
    assert_eq!(o.overall_chamber_temperature(Ok(vec![50])).ok(), Some(0));
    let o = options(vec![("chamber_temperature", text("35,50,40"))]);
    assert_eq!(o.chamber_temperature_values(Ok(vec![35, 50, 40])).ok(), Some(vec![35, 50, 40]));
    assert_eq!(o.overall_chamber_temperature(Ok(vec![35, 50, 40])).ok(), Some(50));
    let e = o.overall_chamber_temperature(Err(SliceError::InvalidInput("chamber_temperature must be an integer".to_owned())));
    assert_eq!(message(e.unwrap_err()), "chamber_temperature must be an integer");
}

#[test]
fn auxiliary_fan_and_speedup_options() {
    assert_eq!(auxiliary_fan(None).ok(), Some(false));
    assert_eq!(auxiliary_fan(Some(&JsonValue::Bool(true))).ok(), Some(true));
    assert_eq!(message(auxiliary_fan(Some(&integer(1))).unwrap_err()), "auxiliary_fan must be a boolean");
    assert_eq!(first_integer("k", None, 7, Ok(vec![1])).ok(), Some(7));
    assert_eq!(first_integer("k", Some(&text("3,4")), 7, Ok(vec![3, 4])).ok(), Some(3));
    assert_eq!(message(first_integer("k", Some(&text("")), 7, Ok(vec![])).unwrap_err()), "k must not be empty");
    assert_eq!(additional_cooling_fan_speed(None, Ok(vec![1])).ok(), Some(0));
    assert_eq!(additional_cooling_fan_speed(Some(&integer(70)), Ok(vec![70])).ok(), Some(70));
    assert_eq!(
        message(additional_cooling_fan_speed(Some(&integer(170)), Ok(vec![170])).unwrap_err()),
        "additional_cooling_fan_speed must be a percent from 0 to 100"
    );
    assert_eq!(scalar_bool("k", None, true).ok(), Some(true));
    assert_eq!(scalar_bool("k", Some(&JsonValue::Bool(false)), true).ok(), Some(false));
    assert_eq!(message(scalar_bool("k", Some(&text("no")), true).unwrap_err()), "k must be a boolean");
}

#[test]
fn other_flow_ratios_switch_and_hardware_values() {
    let o = options(vec![]);
    assert_eq!(parse_set_other_flow_ratios(o.values()).ok(), Some(false));
    let o = options(vec![("set_other_flow_ratios", JsonValue::Bool(true))]);
    assert_eq!(parse_set_other_flow_ratios(o.values()).ok(), Some(true));
    let o = options(vec![("set_other_flow_ratios", text("1"))]);
    assert_eq!(
        message(parse_set_other_flow_ratios(o.values()).unwrap_err()),
        "set_other_flow_ratios must be a boolean"
    );
    let diameters = [0.4f64, 0.6];
    assert_eq!(hardware_value(&diameters, 1), 0.6);
    assert_eq!(hardware_value(&diameters, 2), 0.4);
    assert_eq!(hardware_value(&diameters, u64::MAX), 0.4);
}
