use ares_options::filament_override::apply_vector_override;
use ares_options::json::{json_equal, JsonNumber, JsonValue};
use ares_options::config_writer::{config_error, write_config_block};
use ares_options::config_collector::{collect_config_entries, finish, sort_entries, ConfigEntry, ConfigMap};
use ares_options::config_value::{
    bool_token, escape_scalar_string, joined, newtype_action, nil_value, quote_string_vector_element,
    serialize_string_vector, signed_token, token, unsigned_token, ConfigSequence, ConfigValueError,
    NewtypeAction, SequenceKind, SerializedConfigValue,
};
use ares_options::config_writer::{
    append_line, banned_key, entry_token, string_vector_token, write_canonical_entries,
    write_runtime_tail, PlateFirstLayerTemperatures, ProjectBedType,
};
use ares_options::error::SliceError;
use ares_options::orca_block_keys::contains;

fn entry(key: &str, value: &str) -> ConfigEntry {
    ConfigEntry { key: key.to_owned(), token: value.to_owned(), is_nil: false }
}

fn keys(entries: &[ConfigEntry]) -> Vec<&str> {
    entries.iter().map(|e| e.key.as_str()).collect()
}

fn value_message(e: ConfigValueError) -> String {
    e.0
}

fn slice_message(e: SliceError) -> String {
    match e {
        SliceError::InvalidInput(m) => m,
    }
}

fn plain(s: &str) -> SerializedConfigValue {
    token(s.to_owned())
}

#[test]
fn scalar_tokens() {
    assert_eq!(bool_token(true).token, "1");
    assert_eq!(bool_token(false).token, "0");
    assert_eq!(signed_token(-12).token, "-12");
    assert_eq!(unsigned_token(u64::MAX).token, "18446744073709551615");
    assert!(!signed_token(3).is_nil);
    let nil = nil_value();
    assert_eq!(nil.token, "nil");
    assert!(nil.is_nil);
}

#[test]
fn scalar_strings_are_escaped() {
    assert_eq!(escape_scalar_string("a\"b\\c\nd\re"), "a\\\"b\\\\c\\nd\\re");
    assert_eq!(escape_scalar_string("plain"), "plain");
}

#[test]
fn string_vector_elements_are_quoted_where_needed() {
    assert_eq!(quote_string_vector_element("PLA", 2), "PLA");
    assert_eq!(quote_string_vector_element("my PLA", 2), "\"my PLA\"");
    assert_eq!(quote_string_vector_element("", 1), "\"\"");
    assert_eq!(quote_string_vector_element("", 2), "");
    let values = vec![plain("a b"), plain("c"), plain("")];
    assert_eq!(serialize_string_vector(&values), "\"a b\";c;");
    assert_eq!(string_vector_token(&vec!["#FF0000".to_owned(), "#00FF00".to_owned()]), "#FF0000;#00FF00");
}

#[test]
fn sequences_join_by_kind() {
    let mut ordinary = ConfigSequence::new(SequenceKind::Ordinary);
    ordinary.push(plain("1"));
    ordinary.push(plain("2"));
    let done = ordinary.finish();
    assert_eq!(done.token, "1,2");
    assert!(!done.is_nil);

    let mut groups = ConfigSequence::new(SequenceKind::PointGroups);
    groups.push(plain("0x0,1x1"));
    groups.push(plain("2x2"));
    assert_eq!(groups.finish().token, "0x0,1x1#2x2");

    let mut strings = ConfigSequence::new(SequenceKind::Strings);
    strings.push(plain("x y"));
    assert_eq!(strings.finish().token, "\"x y\"");

    let mut all_nil = ConfigSequence::new(SequenceKind::Nullable);
    all_nil.push(nil_value());
    all_nil.push(nil_value());
    let done = all_nil.finish();
    assert_eq!(done.token, "nil,nil");
    assert!(done.is_nil);

    let mut some_nil = ConfigSequence::new(SequenceKind::Nullable);
    some_nil.push(nil_value());
    some_nil.push(plain("3"));
    let done = some_nil.finish();
    assert_eq!(done.token, "nil,3");
    assert!(!done.is_nil);

    let j = joined(vec![plain("a"), plain("b")], "|", true);
    assert_eq!(j.token, "a|b");
    assert!(j.is_nil);
}

#[test]
fn newtype_names_choose_the_serialization() {
    assert_eq!(newtype_action("ConfigOptionStrings"), NewtypeAction::Sequence(SequenceKind::Strings));
    assert_eq!(
        newtype_action("ConfigOptionPointsGroups"),
        NewtypeAction::Sequence(SequenceKind::PointGroups)
    );
    assert_eq!(
        newtype_action("ConfigOptionNullableVector"),
        NewtypeAction::Sequence(SequenceKind::Nullable)
    );
    assert_eq!(newtype_action("ConfigOptionNil"), NewtypeAction::Nil);
    assert_eq!(newtype_action("ConfigOptionInt"), NewtypeAction::Inner);
}

#[test]
fn sort_is_stable_by_key() {
    let entries = vec![entry("b", "1"), entry("a", "2"), entry("b", "3"), entry("A", "4")];
    let sorted = sort_entries(&entries);
    assert_eq!(keys(&sorted), vec!["A", "a", "b", "b"]);
    assert_eq!(sorted[2].token, "1");
    assert_eq!(sorted[3].token, "3");
}

#[test]
fn finish_sorts_or_names_the_least_duplicate() {
    let ok = finish(vec![entry("z", "1"), entry("m", "2")]).expect("distinct keys");
    assert_eq!(keys(&ok), vec!["m", "z"]);
    let err = finish(vec![entry("z", "1"), entry("q", "2"), entry("z", "3"), entry("q", "4")])
        .expect_err("duplicate keys");
    assert_eq!(value_message(err), "duplicate config key q");
}

#[test]
fn groups_are_collected_together() {
    let ok = collect_config_entries(
        vec![entry("printer_model", "X")],
        vec![entry("layer_height", "0.2")],
        vec![entry("filament_type", "PLA")],
        vec![entry("curr_bed_type", "Cool Plate")],
    )
    .expect("distinct keys");
    assert_eq!(keys(&ok), vec!["curr_bed_type", "filament_type", "layer_height", "printer_model"]);
    let err = collect_config_entries(
        vec![entry("layer_height", "0.2")],
        vec![],
        vec![],
        vec![entry("layer_height", "0.3")],
    )
    .expect_err("duplicate across groups");
    assert_eq!(value_message(err), "duplicate config key layer_height");
}

#[test]
fn config_map_pairs_keys_with_values() {
    let mut map = ConfigMap::new();
    assert!(map.serialize_key(Ok(plain("a"))).is_ok());
    let e = map.serialize_key(Ok(plain("b"))).expect_err("two keys in a row");
    assert_eq!(value_message(e), "config map key is missing its value");
    assert!(map.serialize_value(Ok(plain("1"))).is_ok());
    let e = map.serialize_value(Ok(plain("2"))).expect_err("value without key");
    assert_eq!(value_message(e), "config map value is missing its key");
    let e = map.serialize_key(Ok(nil_value())).expect_err("nil key");
    assert_eq!(value_message(e), "config map key cannot be nil");
    let e = map.serialize_key(Err(ConfigValueError("bad key".to_owned()))).expect_err("key error");
    assert_eq!(value_message(e), "bad key");
    let entries = map.end().expect("complete map");
    assert_eq!(keys(&entries), vec!["a"]);
    assert_eq!(entries[0].token, "1");

    let mut waiting = ConfigMap::new();
    waiting.serialize_key(Ok(plain("k"))).expect("key");
    let e = waiting.end().expect_err("key left waiting");
    assert_eq!(value_message(e), "config map key is missing its value");
}

#[test]
fn block_key_membership_and_banned_keys() {
    assert!(contains("z_hop"));
    assert!(contains("wipe_tower_x"));
    assert!(!contains("not_an_orca_key"));
    assert!(banned_key("print_host"));
    assert!(banned_key("compatible_printers"));
    assert!(!banned_key("z_hop"));
}

#[test]
fn lines_are_written_with_prefix_and_newline() {
    let mut out = String::new();
    append_line(&mut out, "z_hop", "0.4");
    assert_eq!(out, "; z_hop = 0.4\n");
}

#[test]
fn canonical_entries_are_written_sorted() {
    let entries = vec![
        entry("z_hop", "0.4"),
        entry("wipe_tower_x", "ignored"),
        entry("not_an_orca_key", "dropped"),
        entry("extruder_colour", "ignored"),
        ConfigEntry { key: "accel_to_decel_enable".to_owned(), token: "nil".to_owned(), is_nil: true },
    ];
    let xs = vec!["10".to_owned(), "20".to_owned()];
    let ys = vec!["30".to_owned()];
    let colours = vec!["#FF0000".to_owned(), "my colour".to_owned()];
    let raw = vec![
        ("extruder_colour".to_owned(), Some("x".to_owned())),
        ("name".to_owned(), Some("project".to_owned())),
        ("z_hop".to_owned(), Some("9".to_owned())),
        ("raw_only".to_owned(), Some("5".to_owned())),
        ("raw_none".to_owned(), None),
        ("print_host".to_owned(), Some("secret".to_owned())),
    ];
    let mut output = b"head\n".to_vec();
    write_canonical_entries(&entries, &xs, &ys, 1, &colours, &raw, &mut output).expect("written");
    let text = String::from_utf8(output).expect("utf8");
    assert_eq!(
        text,
        "head\n; extruder_colour = #FF0000;\"my colour\"\n; raw_only = 5\n; wipe_tower_x = 20\n; wipe_tower_x = ignored\n; z_hop = 0.4\n"
    );
}

#[test]
fn wipe_tower_values_fall_back_to_the_first_plate() {
    let entries = vec![entry("wipe_tower_y", "ignored")];
    let xs: Vec<String> = vec![];
    let ys = vec!["7".to_owned()];
    let mut output = Vec::new();
    write_canonical_entries(&entries, &xs, &ys, 5, &vec![], &vec![], &mut output).expect("written");
    assert_eq!(String::from_utf8(output).unwrap(), "; wipe_tower_y = 7\n; wipe_tower_y = ignored\n");

    let entries = vec![entry("wipe_tower_x", "ignored")];
    let mut output = b"keep".to_vec();
    let err = write_canonical_entries(&entries, &xs, &ys, 0, &vec![], &vec![], &mut output)
        .expect_err("no wipe tower x");
    assert_eq!(slice_message(err), "wipe_tower_x must not be empty");
    assert_eq!(output, b"keep".to_vec());
}

fn temps() -> PlateFirstLayerTemperatures {
    PlateFirstLayerTemperatures {
        supertack_plate: vec![35],
        cool_plate: vec![40, 45],
        textured_cool_plate: vec![],
        eng_plate: vec![50],
        hot_plate: vec![60],
        textured_plate: vec![65],
    }
}

#[test]
fn runtime_tail_for_bambu_and_other_printers() {
    let entries = vec![entry("printable_area", "0x0,256x0,256x256,0x256")];
    let mut output = Vec::new();
    write_runtime_tail(ProjectBedType::CoolPlate, &temps(), &vec![220, 230], true, &entries, Some("0.200"), &mut output)
        .expect("tail");
    assert_eq!(
        String::from_utf8(output).unwrap(),
        "; first_layer_bed_temperature = 40\n; first_layer_temperature = 220\n"
    );

    let with_height = vec![
        entry("printable_area", "0x0,256x0,256x256,0x256"),
        entry("initial_layer_print_height", "0.2"),
    ];
    let mut output = Vec::new();
    write_runtime_tail(ProjectBedType::HighTempPlate, &temps(), &vec![-5], false, &with_height, Some("0.200"), &mut output)
        .expect("tail");
    assert_eq!(
        String::from_utf8(output).unwrap(),
        "; first_layer_bed_temperature = 60\n; bed_shape = 0x0,256x0,256x256,0x256\n; first_layer_temperature = -5\n; first_layer_height = 0.200\n"
    );

    // Without an `initial_layer_print_height` entry no height line is written.
    let mut output = Vec::new();
    write_runtime_tail(ProjectBedType::HighTempPlate, &temps(), &vec![-5], false, &entries, Some("0.200"), &mut output)
        .expect("tail");
    assert_eq!(
        String::from_utf8(output).unwrap(),
        "; first_layer_bed_temperature = 60\n; bed_shape = 0x0,256x0,256x256,0x256\n; first_layer_temperature = -5\n"
    );

    let mut output = Vec::new();
    write_runtime_tail(ProjectBedType::EngineeringPlate, &temps(), &vec![200], false, &vec![], None, &mut output)
        .expect("tail");
    assert_eq!(
        String::from_utf8(output).unwrap(),
        "; first_layer_bed_temperature = 50\n; bed_shape = \n; first_layer_temperature = 200\n"
    );
}

#[test]
fn runtime_tail_errors() {
    let mut output = b"x".to_vec();
    let e = write_runtime_tail(ProjectBedType::DefaultPlate, &temps(), &vec![200], true, &vec![], None, &mut output)
        .expect_err("default plate");
    assert_eq!(slice_message(e), "curr_bed_type Default Plate has no first-layer temperature");
    let e = write_runtime_tail(ProjectBedType::TexturedCoolPlate, &temps(), &vec![200], true, &vec![], None, &mut output)
        .expect_err("empty plate temperatures");
    assert_eq!(slice_message(e), "textured_cool_plate_temp_initial_layer must not be empty");
    let e = write_runtime_tail(ProjectBedType::CoolPlate, &temps(), &vec![], true, &vec![], None, &mut output)
        .expect_err("empty nozzle temperatures");
    assert_eq!(slice_message(e), "nozzle_temperature_initial_layer must not be empty");
    assert_eq!(output, b"x".to_vec());
}

#[test]
fn entry_token_finds_the_first_match() {
    let entries = vec![entry("a", "1"), entry("b", "2"), entry("a", "3")];
    assert_eq!(entry_token(&entries, "a").map(|s| s.as_str()), Some("1"));
    assert_eq!(entry_token(&entries, "c"), None);
}

#[test]
fn whole_config_block_is_framed_and_atomic() {
    let entries = vec![entry("z_hop", "0.4"), entry("printable_area", "0x0,10x0,10x10")];
    let mut output = b"G1\n".to_vec();
    write_config_block(
        Ok(entries),
        &vec![],
        &vec![],
        0,
        &vec![],
        &vec![],
        "Prusa MK4",
        ProjectBedType::CoolPlate,
        &temps(),
        &vec![215],
        None,
        &mut output,
    )
    .expect("block");
    assert_eq!(
        String::from_utf8(output).unwrap(),
        "G1\n; CONFIG_BLOCK_START\n; z_hop = 0.4\n; first_layer_bed_temperature = 40\n; bed_shape = 0x0,10x0,10x10\n; first_layer_temperature = 215\n; CONFIG_BLOCK_END\n\n"
    );

    let mut output = b"G1\n".to_vec();
    write_config_block(
        Ok(vec![entry("z_hop", "0.4")]),
        &vec![],
        &vec![],
        0,
        &vec![],
        &vec![],
        "Bambu Lab X1 Carbon",
        ProjectBedType::CoolPlate,
        &temps(),
        &vec![215],
        Some("0.200"),
        &mut output,
    )
    .expect("block");
    assert_eq!(
        String::from_utf8(output).unwrap(),
        "G1\n; CONFIG_BLOCK_START\n; z_hop = 0.4\n; first_layer_bed_temperature = 40\n; first_layer_temperature = 215\n; CONFIG_BLOCK_END\n\n"
    );

    let mut output = b"G1\n".to_vec();
    let e = write_config_block(
        Err(ConfigValueError("duplicate config key z_hop".to_owned())),
        &vec![],
        &vec![],
        0,
        &vec![],
        &vec![],
        "Prusa",
        ProjectBedType::CoolPlate,
        &temps(),
        &vec![215],
        None,
        &mut output,
    )
    .unwrap_err();
    assert_eq!(slice_message(e), "duplicate config key z_hop");
    assert_eq!(output, b"G1\n".to_vec());

    let e = write_config_block(
        Ok(vec![entry("z_hop", "0.4")]),
        &vec![],
        &vec![],
        0,
        &vec![],
        &vec![],
        "Prusa",
        ProjectBedType::CoolPlate,
        &temps(),
        &vec![],
        None,
        &mut output,
    )
    .unwrap_err();
    assert_eq!(slice_message(e), "nozzle_temperature_initial_layer must not be empty");
    assert_eq!(output, b"G1\n".to_vec());
    assert_eq!(slice_message(config_error(ConfigValueError("x".to_owned()))), "x");
}

#[test]
fn finished_blocks_have_increasing_keys_and_single_line_values() {
    let done = finish(vec![entry("c", "1"), entry("a", "2"), entry("b", "3")]).unwrap();
    for pair in done.windows(2) {
        assert!(pair[0].key < pair[1].key);
    }
    let escaped = escape_scalar_string("line one\nline two\r\nend");
    assert!(!escaped.contains('\n'));
    assert!(!escaped.contains('\r'));
    assert_eq!(escaped, "line one\\nline two\\r\\nend");
}

#[test]
fn negative_zero_compares_as_zero_and_copies_exactly() {
    let zero = JsonValue::Number(JsonNumber::Float(0.0f64.to_bits()));
    let negative_zero = JsonValue::Number(JsonNumber::Float((-0.0f64).to_bits()));
    assert!(json_equal(&zero, &negative_zero));
    match negative_zero.duplicate() {
        JsonValue::Number(JsonNumber::Float(bits)) => assert_eq!(bits, (-0.0f64).to_bits()),
        other => panic!("unexpected copy {:?}", other),
    }
    let mut machine = vec![zero.duplicate()];
    let changed = apply_vector_override(&mut machine, &vec![negative_zero.duplicate()], &[], false).unwrap();
    assert!(!changed);
    match &machine[0] {
        JsonValue::Number(JsonNumber::Float(bits)) => assert_eq!(*bits, 0.0f64.to_bits()),
        other => panic!("unexpected value {:?}", other),
    }
}
