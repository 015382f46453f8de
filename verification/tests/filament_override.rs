use ares_options::error::SliceError;
use ares_options::filament_override::{
    apply_vector_override, collect_filament_override_updates, collect_full_print_config_diff_updates,
    collect_print_config_diff_updates, compute_filament_override_value,
    prepared_filament_override_value,
};
use ares_options::json::{all_equal, json_equal, JsonNumber, JsonValue};
use ares_options::option_map::OptionMap;

fn integer(n: i64) -> JsonValue {
    if n >= 0 {
        JsonValue::Number(JsonNumber::PosInt(n as u64))
    } else {
        JsonValue::Number(JsonNumber::NegInt(n))
    }
}

fn float(x: f64) -> JsonValue {
    JsonValue::Number(JsonNumber::Float(x.to_bits()))
}

fn text(s: &str) -> JsonValue {
    JsonValue::String(s.to_owned())
}

fn boolean(b: bool) -> JsonValue {
    JsonValue::Bool(b)
}

fn array(items: Vec<JsonValue>) -> JsonValue {
    JsonValue::Array(items)
}

fn ints(values: &[i64]) -> JsonValue {
    array(values.iter().map(|v| integer(*v)).collect())
}

fn texts(values: &[&str]) -> JsonValue {
    array(values.iter().map(|v| text(v)).collect())
}

fn options(pairs: Vec<(&str, JsonValue)>) -> OptionMap {
    let mut map = OptionMap::new();
    for (key, value) in pairs {
        map.insert(key.to_owned(), value);
    }
    map
}

fn message(error: SliceError) -> String {
    match error {
        SliceError::InvalidInput(message) => message,
    }
}

fn owned_keys(keys: &[&str]) -> Vec<String> {
    keys.iter().map(|key| (*key).to_owned()).collect()
}

#[test]
fn long_retraction_disabled_replaces_bool_and_float_vectors_with_nil_arrays() {
    let enable = integer(0);

    let bool_result = prepared_filament_override_value(
        "long_retractions_when_cut",
        &array(vec![boolean(true), boolean(false), boolean(true)]),
        Some(&enable),
    )
    .expect("disabled long retraction should replace bool vector");
    assert!(json_equal(&bool_result, &texts(&["nil", "nil", "nil"])));

    let float_result = prepared_filament_override_value(
        "retraction_distances_when_cut",
        &array(vec![float(1.2), float(0.8)]),
        Some(&enable),
    )
    .expect("disabled long retraction should replace float vector");
    assert!(json_equal(&float_result, &texts(&["nil", "nil"])));
}

#[test]
fn long_retraction_machine_mode_replaces_special_keys_with_nil_arrays() {
    let enable = integer(1);

    let bool_result = prepared_filament_override_value(
        "long_retractions_when_cut",
        &array(vec![boolean(false), boolean(true)]),
        Some(&enable),
    )
    .expect("machine mode long retraction should replace bool vector");
    assert!(json_equal(&bool_result, &texts(&["nil", "nil"])));

    let float_result = prepared_filament_override_value(
        "retraction_distances_when_cut",
        &array(vec![float(0.4), float(0.6), float(0.8)]),
        Some(&enable),
    )
    .expect("machine mode long retraction should replace float vector");
    assert!(json_equal(&float_result, &texts(&["nil", "nil", "nil"])));
}

#[test]
fn long_retraction_filament_mode_preserves_special_key_values() {
    let enable = integer(2);
    let bool_values = array(vec![boolean(true), boolean(false)]);
    let float_values = array(vec![float(0.5), float(1.25)]);

    let bool_result =
        prepared_filament_override_value("long_retractions_when_cut", &bool_values, Some(&enable))
            .expect("filament mode should preserve bool vector");
    assert!(json_equal(&bool_result, &bool_values));

    let float_result = prepared_filament_override_value(
        "retraction_distances_when_cut",
        &float_values,
        Some(&enable),
    )
    .expect("filament mode should preserve float vector");
    assert!(json_equal(&float_result, &float_values));
}

#[test]
fn non_special_keys_pass_through_without_array_requirement() {
    let scalar_value = float(3.5);

    let result = prepared_filament_override_value("retraction_length", &scalar_value, None)
        .expect("non-special keys should pass through scalar values");

    assert!(json_equal(&result, &scalar_value));
}

#[test]
fn invalid_enable_or_special_array_input_errors() {
    let missing_enable = prepared_filament_override_value(
        "long_retractions_when_cut",
        &array(vec![boolean(true)]),
        None,
    )
    .expect_err("special keys require enable_long_retraction_when_cut");
    assert!(matches!(missing_enable, SliceError::InvalidInput(_)));

    let non_integer_enable = prepared_filament_override_value(
        "long_retractions_when_cut",
        &array(vec![boolean(true)]),
        Some(&text("2")),
    )
    .expect_err("special keys require an integer enable value");
    assert!(matches!(non_integer_enable, SliceError::InvalidInput(_)));

    let non_array_value = prepared_filament_override_value(
        "retraction_distances_when_cut",
        &float(1.25),
        Some(&integer(0)),
    )
    .expect_err("special key values must be arrays when not in filament mode");
    assert!(matches!(non_array_value, SliceError::InvalidInput(_)));
}

#[test]
fn vector_override_non_nullable_replaces_and_detects_unchanged_values() {
    let mut machine_values = vec![integer(1), integer(2)];
    let override_values = vec![integer(3), integer(4), integer(5)];

    let modified = apply_vector_override(&mut machine_values, &override_values, &[], false)
        .expect("non-nullable override should replace different vectors");
    assert!(modified);
    assert!(all_equal(&machine_values, &override_values));

    let modified = apply_vector_override(&mut machine_values, &override_values, &[], false)
        .expect("non-nullable override should detect unchanged vectors");
    assert!(!modified);
    assert!(all_equal(&machine_values, &override_values));
}

#[test]
fn vector_override_nullable_copies_non_nil_entries_and_reports_modification() {
    let mut machine_values = vec![integer(10), integer(20), integer(30)];
    let override_values = vec![text("nil"), integer(25), integer(35)];

    let modified = apply_vector_override(&mut machine_values, &override_values, &[], true)
        .expect("nullable override should copy non-nil entries");

    assert!(modified);
    assert!(all_equal(&machine_values, &vec![integer(10), integer(25), integer(35)]));
}

#[test]
fn vector_override_nullable_nil_restores_from_one_based_default_index() {
    let mut machine_values = vec![text("current-1"), text("current-2"), text("current-3")];
    let override_values = vec![text("nil"), text("nil"), text("nil")];
    let default_index: [isize; 3] = [3, 1, 2];

    let modified =
        apply_vector_override(&mut machine_values, &override_values, &default_index, true)
            .expect("nullable nil should restore indexed defaults");

    assert!(!modified);
    assert!(all_equal(
        &machine_values,
        &vec![text("current-3"), text("current-1"), text("current-2")]
    ));
}

#[test]
fn vector_override_nullable_nil_falls_back_to_first_original_machine_value() {
    let mut machine_values = vec![text("fallback"), text("second"), text("third")];
    let override_values = vec![text("nil"), text("nil"), text("nil")];
    let default_index: [isize; 2] = [0, 4];

    let modified =
        apply_vector_override(&mut machine_values, &override_values, &default_index, true)
            .expect("missing or invalid default index should use first default value");

    assert!(!modified);
    assert!(all_equal(
        &machine_values,
        &vec![text("fallback"), text("fallback"), text("fallback")]
    ));
}

#[test]
fn vector_override_nullable_zero_overlap_is_no_op_when_override_is_empty() {
    let mut machine_values = vec![integer(1), integer(2)];
    let modified = apply_vector_override(&mut machine_values, &Vec::new(), &[], true)
        .expect("empty override vector should be a nullable no-op");
    assert!(!modified);
    assert!(all_equal(&machine_values, &vec![integer(1), integer(2)]));
}

#[test]
fn vector_override_nullable_zero_overlap_is_no_op_when_machine_is_empty() {
    let mut machine_values = Vec::new();

    let modified = apply_vector_override(&mut machine_values, &vec![text("nil")], &[1], true)
        .expect("empty machine vector should be a nullable no-op");

    assert!(!modified);
    assert!(machine_values.is_empty());
}

#[test]
fn filament_override_update_emits_changed_non_nullable_override() {
    let mut diff_keys = Vec::new();
    let mut filament_overrides = OptionMap::new();

    let changed = compute_filament_override_value(
        "retraction_length",
        &ints(&[1, 2]),
        &ints(&[1, 2]),
        &ints(&[3, 4]),
        None,
        &[],
        false,
        &mut diff_keys,
        &mut filament_overrides,
    )
    .expect("changed non-nullable override should emit output");

    assert!(changed);
    assert_eq!(diff_keys, ["retraction_length"]);
    assert!(json_equal(
        filament_overrides.get("retraction_length").unwrap(),
        &ints(&[3, 4])
    ));
}

#[test]
fn filament_override_update_suppresses_unchanged_output() {
    let mut diff_keys = vec!["existing".to_owned()];
    let mut filament_overrides = options(vec![("existing", ints(&[9]))]);

    let changed = compute_filament_override_value(
        "retraction_length",
        &ints(&[3, 4]),
        &ints(&[1, 2]),
        &ints(&[3, 4]),
        None,
        &[],
        false,
        &mut diff_keys,
        &mut filament_overrides,
    )
    .expect("unchanged computed value should not emit output");

    assert!(!changed);
    assert_eq!(diff_keys, ["existing"]);
    assert_eq!(filament_overrides.len(), 1);
    assert!(json_equal(filament_overrides.get("existing").unwrap(), &ints(&[9])));
}

#[test]
fn filament_override_update_uses_long_retraction_nil_preparation() {
    let mut diff_keys = Vec::new();
    let mut filament_overrides = OptionMap::new();

    let changed = compute_filament_override_value(
        "long_retractions_when_cut",
        &array(vec![boolean(true), boolean(false)]),
        &array(vec![boolean(true), boolean(false)]),
        &array(vec![boolean(false), boolean(true)]),
        Some(&integer(0)),
        &[1, 2],
        true,
        &mut diff_keys,
        &mut filament_overrides,
    )
    .expect("long retraction disabled should prepare nil filament override");

    assert!(!changed);
    assert!(diff_keys.is_empty());
    assert_eq!(filament_overrides.len(), 0);
}

#[test]
fn filament_override_update_non_nullable_replacement_uses_final_changed_predicate() {
    let mut diff_keys = Vec::new();
    let mut filament_overrides = OptionMap::new();

    let changed = compute_filament_override_value(
        "retraction_length",
        &ints(&[1, 2]),
        &ints(&[7, 8]),
        &ints(&[7, 8]),
        None,
        &[],
        false,
        &mut diff_keys,
        &mut filament_overrides,
    )
    .expect("equal override application can still emit when old differs from computed clone");

    assert!(changed);
    assert_eq!(diff_keys, ["retraction_length"]);
    assert!(json_equal(
        filament_overrides.get("retraction_length").unwrap(),
        &ints(&[7, 8])
    ));
}

#[test]
fn filament_override_update_nullable_nil_restore_can_emit_without_non_nil_copy() {
    let mut diff_keys = Vec::new();
    let mut filament_overrides = OptionMap::new();

    let changed = compute_filament_override_value(
        "retraction_length",
        &texts(&["old-1", "old-2"]),
        &texts(&["new-1", "new-2"]),
        &texts(&["nil", "nil"]),
        None,
        &[2, 1],
        true,
        &mut diff_keys,
        &mut filament_overrides,
    )
    .expect("nil restore can change clone even when no non-nil override was copied");

    assert!(changed);
    assert_eq!(diff_keys, ["retraction_length"]);
    assert!(json_equal(
        filament_overrides.get("retraction_length").unwrap(),
        &texts(&["new-2", "new-1"])
    ));
}

#[test]
fn filament_override_update_nullable_zero_overlap_uses_final_comparison() {
    let mut diff_keys = Vec::new();
    let mut filament_overrides = OptionMap::new();

    let changed = compute_filament_override_value(
        "retraction_length",
        &texts(&["old"]),
        &texts(&["new"]),
        &array(Vec::new()),
        None,
        &[],
        true,
        &mut diff_keys,
        &mut filament_overrides,
    )
    .expect("zero-overlap override should leave clone for final comparison");

    assert!(changed);
    assert_eq!(diff_keys, ["retraction_length"]);
    assert!(json_equal(
        filament_overrides.get("retraction_length").unwrap(),
        &texts(&["new"])
    ));
}

#[test]
fn filament_override_key_loop_collects_changed_unprefixed_override() {
    let old_machine = options(vec![("retraction_length", ints(&[1, 2]))]);
    let new_machine = options(vec![("retraction_length", ints(&[1, 2]))]);
    let new_full = options(vec![("filament_retraction_length", ints(&[3, 4]))]);
    let mut diff_keys = Vec::new();
    let mut filament_overrides = OptionMap::new();

    collect_filament_override_updates(
        &old_machine,
        &new_machine,
        &new_full,
        None,
        &[],
        false,
        &mut diff_keys,
        &mut filament_overrides,
    )
    .expect("present filament override should be collected");

    assert_eq!(diff_keys, ["retraction_length"]);
    assert!(json_equal(
        filament_overrides.get("retraction_length").unwrap(),
        &ints(&[3, 4])
    ));
}

#[test]
fn filament_override_key_loop_skips_missing_prefixed_key_before_machine_lookup() {
    let old_machine = OptionMap::new();
    let new_machine = OptionMap::new();
    let new_full = OptionMap::new();
    let mut diff_keys = Vec::new();
    let mut filament_overrides = OptionMap::new();

    collect_filament_override_updates(
        &old_machine,
        &new_machine,
        &new_full,
        None,
        &[],
        false,
        &mut diff_keys,
        &mut filament_overrides,
    )
    .expect("missing filament override keys should skip machine lookup");

    assert!(diff_keys.is_empty());
    assert_eq!(filament_overrides.len(), 0);
}

#[test]
fn filament_override_key_loop_errors_when_machine_values_missing_for_present_filament() {
    let old_machine = OptionMap::new();
    let new_machine = OptionMap::new();
    let new_full = options(vec![("filament_retraction_length", ints(&[3, 4]))]);
    let mut diff_keys = Vec::new();
    let mut filament_overrides = OptionMap::new();

    let error = collect_filament_override_updates(
        &old_machine,
        &new_machine,
        &new_full,
        None,
        &[],
        false,
        &mut diff_keys,
        &mut filament_overrides,
    )
    .expect_err("present filament override requires machine values");

    assert_eq!(message(error), "retraction_length old machine value is missing");
    assert!(diff_keys.is_empty());
    assert_eq!(filament_overrides.len(), 0);
}

#[test]
fn filament_override_key_loop_preserves_extruder_retract_key_source_order() {
    let old_machine = options(vec![
        ("deretraction_speed", ints(&[1, 2])),
        ("retraction_length", ints(&[1, 2])),
        ("wipe", array(vec![boolean(false), boolean(false)])),
    ]);
    let new_machine = options(vec![
        ("deretraction_speed", ints(&[1, 2])),
        ("retraction_length", ints(&[1, 2])),
        ("wipe", array(vec![boolean(false), boolean(false)])),
    ]);
    let new_full = options(vec![
        ("filament_deretraction_speed", ints(&[10, 20])),
        ("filament_retraction_length", ints(&[3, 4])),
        ("filament_wipe", array(vec![boolean(true), boolean(false)])),
    ]);
    let mut diff_keys = Vec::new();
    let mut filament_overrides = OptionMap::new();

    collect_filament_override_updates(
        &old_machine,
        &new_machine,
        &new_full,
        None,
        &[],
        false,
        &mut diff_keys,
        &mut filament_overrides,
    )
    .expect("multiple changed overrides should preserve registry source order");

    assert_eq!(diff_keys, ["deretraction_speed", "retraction_length", "wipe"]);
    assert!(json_equal(
        filament_overrides.get("deretraction_speed").unwrap(),
        &ints(&[10, 20])
    ));
    assert!(json_equal(
        filament_overrides.get("retraction_length").unwrap(),
        &ints(&[3, 4])
    ));
    assert!(json_equal(
        filament_overrides.get("wipe").unwrap(),
        &array(vec![boolean(true), boolean(false)])
    ));
}

#[test]
fn filament_override_key_loop_suppresses_unchanged_computed_override() {
    let old_machine = options(vec![("retraction_length", ints(&[3, 4]))]);
    let new_machine = options(vec![("retraction_length", ints(&[1, 2]))]);
    let new_full = options(vec![("filament_retraction_length", ints(&[3, 4]))]);
    let mut diff_keys = vec!["existing".to_owned()];
    let mut filament_overrides = options(vec![("existing", ints(&[9]))]);

    collect_filament_override_updates(
        &old_machine,
        &new_machine,
        &new_full,
        None,
        &[],
        false,
        &mut diff_keys,
        &mut filament_overrides,
    )
    .expect("unchanged computed override should leave outputs untouched");

    assert_eq!(diff_keys, ["existing"]);
    assert_eq!(filament_overrides.len(), 1);
    assert!(json_equal(filament_overrides.get("existing").unwrap(), &ints(&[9])));
}

fn collect_print(
    current: &OptionMap,
    new_full: &OptionMap,
    keys: &[&str],
    plate_index: usize,
) -> (Vec<String>, OptionMap) {
    let mut diff_keys = Vec::new();
    let mut filament_overrides = OptionMap::new();
    collect_print_config_diff_updates(
        current,
        new_full,
        &owned_keys(keys),
        plate_index,
        None,
        &[],
        false,
        &mut diff_keys,
        &mut filament_overrides,
    )
    .expect("print diff collection should succeed");
    (diff_keys, filament_overrides)
}

#[test]
fn print_diff_skips_missing_new_option() {
    let current = options(vec![("travel_speed", integer(120))]);
    let new_full = OptionMap::new();

    let (diff_keys, filament_overrides) = collect_print(&current, &new_full, &["travel_speed"], 0);

    assert!(diff_keys.is_empty());
    assert_eq!(filament_overrides.len(), 0);
}

#[test]
fn print_diff_collects_changed_scalar_and_suppresses_equal_value() {
    let current = options(vec![("travel_speed", integer(120)), ("inner_wall_speed", integer(60))]);
    let new_full = options(vec![("travel_speed", integer(150)), ("inner_wall_speed", integer(60))]);

    let (diff_keys, filament_overrides) = collect_print(
        &current,
        &new_full,
        &["travel_speed", "inner_wall_speed"],
        0,
    );

    assert_eq!(diff_keys, ["travel_speed"]);
    assert_eq!(filament_overrides.len(), 0);
}

#[test]
fn print_diff_uses_wipe_tower_plate_index_comparison() {
    let current = options(vec![("wipe_tower_x", ints(&[10, 20]))]);
    let new_same_selected = options(vec![("wipe_tower_x", ints(&[99, 20]))]);
    let new_changed_selected = options(vec![("wipe_tower_x", ints(&[10, 25]))]);

    let (same_keys, _) = collect_print(&current, &new_same_selected, &["wipe_tower_x"], 1);
    let (changed_keys, _) = collect_print(&current, &new_changed_selected, &["wipe_tower_x"], 1);

    assert!(same_keys.is_empty());
    assert_eq!(changed_keys, ["wipe_tower_x"]);
}

#[test]
fn print_diff_wipe_tower_emits_when_only_one_side_has_plate_index() {
    let current = options(vec![("wipe_tower_x", ints(&[10])), ("wipe_tower_y", ints(&[5, 6]))]);
    let new_full = options(vec![("wipe_tower_x", ints(&[10, 20])), ("wipe_tower_y", ints(&[5]))]);

    let (diff_keys, _) =
        collect_print(&current, &new_full, &["wipe_tower_x", "wipe_tower_y"], 1);

    assert_eq!(diff_keys, ["wipe_tower_x", "wipe_tower_y"]);
}

#[test]
fn print_diff_filament_override_branch_takes_precedence() {
    let current = options(vec![("retraction_length", ints(&[1, 2]))]);
    let new_full = options(vec![
        ("retraction_length", ints(&[9, 9])),
        ("filament_retraction_length", ints(&[3, 4])),
    ]);

    let (diff_keys, filament_overrides) =
        collect_print(&current, &new_full, &["retraction_length"], 0);

    assert_eq!(diff_keys, ["retraction_length"]);
    assert!(json_equal(
        filament_overrides.get("retraction_length").unwrap(),
        &ints(&[3, 4])
    ));
}

fn collect_full(
    current: &OptionMap,
    new_full: &OptionMap,
    keys: &[&str],
    plate_index: usize,
) -> Vec<String> {
    let mut diff_keys = Vec::new();
    collect_full_print_config_diff_updates(
        current,
        new_full,
        &owned_keys(keys),
        plate_index,
        &mut diff_keys,
    )
    .expect("full print diff collection should succeed");
    diff_keys
}

#[test]
fn full_print_diff_collects_missing_old_and_changed_non_wipe_keys() {
    let current = options(vec![("travel_speed", integer(120))]);
    let new_full = options(vec![("travel_speed", integer(150)), ("inner_wall_speed", integer(60))]);

    let diff_keys = collect_full(&current, &new_full, &["travel_speed", "inner_wall_speed"], 0);

    assert_eq!(diff_keys, ["travel_speed", "inner_wall_speed"]);
}

#[test]
fn full_print_diff_suppresses_equal_value() {
    let current = options(vec![("travel_speed", integer(120))]);
    let new_full = options(vec![("travel_speed", integer(120))]);

    let diff_keys = collect_full(&current, &new_full, &["travel_speed"], 0);

    assert!(diff_keys.is_empty());
}

#[test]
fn full_print_diff_errors_when_declared_new_key_is_missing() {
    let current = OptionMap::new();
    let new_full = OptionMap::new();
    let mut diff_keys = Vec::new();

    let error = collect_full_print_config_diff_updates(
        &current,
        &new_full,
        &vec!["travel_speed".to_owned()],
        0,
        &mut diff_keys,
    )
    .expect_err("declared new key must exist");

    assert_eq!(message(error), "travel_speed new full value is missing");
    assert!(diff_keys.is_empty());
}

#[test]
fn full_print_diff_uses_wipe_tower_plate_index_when_old_exists() {
    let current = options(vec![("wipe_tower_y", ints(&[10, 20]))]);
    let new_same_selected = options(vec![("wipe_tower_y", ints(&[99, 20]))]);
    let new_changed_selected = options(vec![("wipe_tower_y", ints(&[10, 25]))]);

    let same_keys = collect_full(&current, &new_same_selected, &["wipe_tower_y"], 1);
    let changed_keys = collect_full(&current, &new_changed_selected, &["wipe_tower_y"], 1);

    assert!(same_keys.is_empty());
    assert_eq!(changed_keys, ["wipe_tower_y"]);
}

#[test]
fn full_print_diff_wipe_tower_missing_old_always_emits() {
    let current = OptionMap::new();
    let new_full = options(vec![("wipe_tower_x", ints(&[10]))]);

    let diff_keys = collect_full(&current, &new_full, &["wipe_tower_x"], 1);

    assert_eq!(diff_keys, ["wipe_tower_x"]);
}

#[test]
fn full_print_diff_wipe_tower_emits_when_only_one_side_has_plate_index() {
    let current = options(vec![("wipe_tower_x", ints(&[10])), ("wipe_tower_y", ints(&[5, 6]))]);
    let new_full = options(vec![("wipe_tower_x", ints(&[10, 20])), ("wipe_tower_y", ints(&[5]))]);

    let diff_keys = collect_full(&current, &new_full, &["wipe_tower_x", "wipe_tower_y"], 1);

    assert_eq!(diff_keys, ["wipe_tower_x", "wipe_tower_y"]);
}
