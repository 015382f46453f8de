use ares_options::config_transform::{
    apply_cli_oracle_state, apply_scarf_joint_seam, flush_matrix_scaling, matrix_error,
    prepare_multi_extruder_cli_defaults, FlushMatrixScaling,
};
use ares_options::config_types::OrcaBool;
use ares_options::error::SliceError;
use ares_options::filament_map_recommend::{apply_recommended_filament_map, is_bbl_printer, starts_with};
use ares_options::filament_options::{is_known_field, profile_variant_mapping, RawOverhangFanThreshold};
use ares_options::filament_type::{
    display, first_string_entry, non_empty_string_entries, optional_bool_get_at, optional_string_get_at,
};
use ares_options::json::{JsonNumber, JsonValue};
use ares_options::option_enums::{BrimType, DraftShield};
use ares_options::option_map::OptionMap;
use ares_options::slice_options::SliceOptions;

fn integer(n: i64) -> JsonValue {
    if n >= 0 {
        JsonValue::Number(JsonNumber::PosInt(n as u64))
    } else {
        JsonValue::Number(JsonNumber::NegInt(n))
    }
}

fn text(s: &str) -> JsonValue {
    JsonValue::String(s.to_owned())
}

fn texts(values: &[&str]) -> JsonValue {
    JsonValue::Array(values.iter().map(|v| text(v)).collect())
}

fn bools(values: &[bool]) -> JsonValue {
    JsonValue::Array(values.iter().map(|b| JsonValue::Bool(*b)).collect())
}

fn options(pairs: Vec<(&str, JsonValue)>) -> SliceOptions {
    let mut map = OptionMap::new();
    for (key, value) in pairs {
        map.insert(key.to_owned(), value);
    }
    SliceOptions::new(map)
}

fn message(error: SliceError) -> String {
    match error {
        SliceError::InvalidInput(message) => message,
    }
}

fn strings(values: &[&str]) -> Vec<String> {
    values.iter().map(|v| (*v).to_owned()).collect()
}

#[test]
fn brim_and_draft_shield() {
    assert_eq!(options(vec![]).parse_brim_type().ok(), Some(BrimType::AutoBrim));
    assert_eq!(options(vec![("brim_type", text("outer_and_inner"))]).parse_brim_type().ok(), Some(BrimType::OuterAndInner));
    assert_eq!(options(vec![("brim_type", text("no_brim"))]).parse_brim_type().ok(), Some(BrimType::NoBrim));
    assert_eq!(
        message(options(vec![("brim_type", text("wide"))]).parse_brim_type().unwrap_err()),
        "brim_type must be a valid Orca brim type"
    );
    assert_eq!(options(vec![]).parse_draft_shield().ok(), Some(DraftShield::Disabled));
    assert_eq!(options(vec![("draft_shield", text("enabled"))]).parse_draft_shield().ok(), Some(DraftShield::Enabled));
    assert_eq!(
        message(options(vec![("draft_shield", JsonValue::Bool(true))]).parse_draft_shield().unwrap_err()),
        "draft_shield must be disabled or enabled"
    );
    assert_eq!(options(vec![]).precise_z_height().ok(), Some(false));
    assert_eq!(options(vec![("precise_z_height", JsonValue::Bool(true))]).precise_z_height().ok(), Some(true));
    assert_eq!(
        message(options(vec![("precise_z_height", integer(1))]).precise_z_height().unwrap_err()),
        "precise_z_height must be a boolean"
    );
}

#[test]
fn recommended_filament_map() {
    assert!(starts_with("Bambu Lab X1", "Bambu Lab"));
    assert!(!starts_with("Bambu", "Bambu Lab"));
    assert!(is_bbl_printer("Bambu Lab H2D"));
    assert!(!is_bbl_printer("Prusa MK4"));

    let mut map = vec![9];
    apply_recommended_filament_map(false, 3, 1, "Prusa", 2, &mut map);
    assert_eq!(map, vec![2, 2, 2]);
    let mut map = vec![9];
    apply_recommended_filament_map(false, 3, 2, "Bambu Lab H2D", 1, &mut map);
    assert_eq!(map, vec![1, 1, 1]);
    let mut map = vec![9];
    apply_recommended_filament_map(false, 3, 2, "Other", 1, &mut map);
    assert_eq!(map, vec![1, 2, 3]);
    let mut map = vec![9];
    apply_recommended_filament_map(false, 0, 3, "Other", 1, &mut map);
    assert_eq!(map, vec![1]);
    let mut map = vec![9];
    apply_recommended_filament_map(true, 3, 1, "Other", 1, &mut map);
    assert_eq!(map, vec![9]);
    let mut map = vec![9];
    apply_recommended_filament_map(false, 3, 0, "Other", 1, &mut map);
    assert_eq!(map, vec![9]);
}

#[test]
fn filament_types_and_vendors() {
    assert_eq!(first_string_entry(None, "k").ok(), Some(String::new()));
    assert_eq!(first_string_entry(Some(&texts(&[])), "k").ok(), Some(String::new()));
    assert_eq!(first_string_entry(Some(&texts(&["PLA", "PETG"])), "k").ok(), Some("PLA".to_owned()));
    assert_eq!(message(first_string_entry(Some(&text("PLA")), "k").unwrap_err()), "k must be a string vector");
    assert_eq!(non_empty_string_entries(Some(&texts(&["a", "b"])), "k").ok(), Some(Some(strings(&["a", "b"]))));
    assert_eq!(message(non_empty_string_entries(Some(&texts(&[])), "k").unwrap_err()), "k must not be empty");
    assert_eq!(optional_string_get_at(Some(&texts(&["a", "b"])), "k", 5).ok(), Some(Some("a".to_owned())));
    assert_eq!(optional_bool_get_at(Some(&bools(&[false, true])), "k", 1).ok(), Some(Some(true)));
    assert_eq!(
        message(optional_bool_get_at(Some(&texts(&["x"])), "k", 0).unwrap_err()),
        "k must contain bools"
    );
    let d = display("PLA", "Sup.PLA");
    assert_eq!((d.value.as_str(), d.displayed.as_str()), ("PLA", "Sup.PLA"));

    let o = options(vec![
        ("filament_vendor", texts(&["Bambu Lab", "Bambu Lab"])),
        ("filament_type", texts(&["PLA", "TPU", "PA"])),
        ("filament_is_support", bools(&[false, false, true])),
        ("filament_id", texts(&["GFA00", "GFU01", "GFN00"])),
    ]);
    assert_eq!(o.filament_vendor().ok(), Some("Bambu Lab".to_owned()));
    assert_eq!(o.is_all_bbl_filament().ok(), Some(true));
    assert_eq!(o.filament_type().ok(), Some("PLA".to_owned()));
    assert_eq!(o.has_tpu_in_first_layer().ok(), Some(true));
    let d = o.filament_type_display(0).unwrap();
    assert_eq!((d.value.as_str(), d.displayed.as_str()), ("PLA", "PLA"));
    let d = o.filament_type_display(2).unwrap();
    assert_eq!((d.value.as_str(), d.displayed.as_str()), ("PA-S", "Sup.PA"));

    let o = options(vec![
        ("filament_vendor", texts(&["Bambu Lab", "Generic"])),
        ("filament_type", texts(&["PETG"])),
        ("filament_is_support", bools(&[true])),
        ("filament_id", texts(&["GFS00"])),
    ]);
    assert_eq!(o.is_all_bbl_filament().ok(), Some(false));
    assert_eq!(o.has_tpu_in_first_layer().ok(), Some(false));
    let d = o.filament_type_display(0).unwrap();
    assert_eq!((d.value.as_str(), d.displayed.as_str()), ("PLA-S", "Sup.PLA"));

    let o = options(vec![]);
    assert_eq!(o.is_all_bbl_filament().ok(), Some(false));
    let d = o.filament_type_display(0).unwrap();
    assert_eq!((d.value.as_str(), d.displayed.as_str()), ("", ""));
}

#[test]
fn custom_gcode_texts() {
    let o = options(vec![
        ("machine_start_gcode", text("G28")),
        ("filament_start_gcode", texts(&["; first", "; second"])),
        ("filament_end_gcode", text("; end")),
        ("layer_change_gcode", integer(3)),
        ("filament_change_extrusion_role_gcode", JsonValue::Array(vec![text("a"), integer(1)])),
    ]);
    assert_eq!(o.machine_start_gcode().ok(), Some("G28"));
    assert_eq!(o.machine_end_gcode().ok(), Some(""));
    assert_eq!(o.filament_start_gcode().ok(), Some("; first"));
    assert_eq!(o.filament_end_gcode().ok(), Some("; end"));
    assert_eq!(message(o.layer_change_gcode().unwrap_err()), "layer_change_gcode must be a string");
    assert_eq!(
        message(o.filament_change_extrusion_role_gcode().unwrap_err()),
        "filament_change_extrusion_role_gcode must be a string or string array"
    );
    let empty = options(vec![("filament_start_gcode", texts(&[]))]);
    assert_eq!(empty.filament_start_gcode().ok(), Some(""));
    assert_eq!(empty.time_lapse_gcode().ok(), Some(""));
}

#[test]
fn filament_change_defaults() {
    let o = options(vec![]).filament_change_options().unwrap();
    assert!(o.single_extruder_multi_material());
    assert!(!o.manual_filament_change());
    assert!(!o.single_extruder_multi_material_priming());
    let o = options(vec![
        ("single_extruder_multi_material", JsonValue::Bool(false)),
        ("manual_filament_change", JsonValue::Bool(true)),
    ])
    .filament_change_options()
    .unwrap();
    assert!(!o.single_extruder_multi_material());
    assert!(o.manual_filament_change());
    let e = options(vec![("manual_filament_change", text("yes"))]).filament_change_options().unwrap_err();
    assert_eq!(message(e), "manual_filament_change must be a boolean");
}

#[test]
fn flush_matrix_and_export_flags() {
    assert_eq!(flush_matrix_scaling(2, 3, 18).ok(), Some(FlushMatrixScaling::Scale { segment_len: 9 }));
    assert_eq!(flush_matrix_scaling(2, 1, 5).ok(), Some(FlushMatrixScaling::Keep));
    let expected = "Flush volumes matrix do not match to the correct size!";
    assert_eq!(message(flush_matrix_scaling(2, 3, 9).unwrap_err()), expected);
    assert_eq!(message(flush_matrix_scaling(0, 1, 1).unwrap_err()), expected);
    assert_eq!(message(flush_matrix_scaling(1, usize::MAX, 1).unwrap_err()), expected);
    assert_eq!(message(matrix_error()), expected);
    assert!(apply_scarf_joint_seam(false, OrcaBool(false)).0);
    assert!(apply_scarf_joint_seam(true, OrcaBool(true)).0);
    assert!(!apply_scarf_joint_seam(true, OrcaBool(false)).0);
    assert!(!apply_cli_oracle_state(true, 2, Some(OrcaBool(false)), OrcaBool(true)).0);
    assert!(apply_cli_oracle_state(true, 1, Some(OrcaBool(false)), OrcaBool(true)).0);
    assert!(apply_cli_oracle_state(false, 2, Some(OrcaBool(false)), OrcaBool(true)).0);
    assert!(apply_cli_oracle_state(true, 2, None, OrcaBool(true)).0);
}

#[test]
fn multi_extruder_cli_defaults() {
    let mut ams = strings(&["", ""]);
    let mut multipliers = vec![0.5f64];
    let mut matrix = vec![1.0f64, 2.0];
    prepare_multi_extruder_cli_defaults(2, false, 1, &mut ams, &mut multipliers, 1.0, &mut matrix, 0.0);
    assert_eq!(ams, strings(&["1#0|4#1", "1#0|4#1"]));
    assert_eq!(multipliers, vec![0.5, 1.0]);
    assert_eq!(matrix, vec![0.0, 0.0]);

    let mut ams = strings(&["2"]);
    let mut multipliers = vec![0.5f64];
    let mut matrix = vec![1.0f64];
    prepare_multi_extruder_cli_defaults(2, false, 1, &mut ams, &mut multipliers, 1.0, &mut matrix, 0.0);
    assert_eq!(ams, strings(&["2"]));
    assert_eq!(multipliers, vec![0.5]);
    assert_eq!(matrix, vec![1.0]);

    let mut ams: Vec<String> = vec![];
    let mut multipliers = vec![0.5f64, 0.6, 0.7];
    let mut matrix = vec![1.0f64];
    prepare_multi_extruder_cli_defaults(2, false, 2, &mut ams, &mut multipliers, 1.0, &mut matrix, 0.0);
    assert_eq!(ams.len(), 2);
    assert_eq!(multipliers, vec![0.5, 0.6]);
    assert_eq!(matrix, vec![1.0]);
}

#[test]
fn overhang_threshold_and_variant_mapping() {
    for t in [
        RawOverhangFanThreshold::Percent0,
        RawOverhangFanThreshold::Percent10,
        RawOverhangFanThreshold::Percent25,
        RawOverhangFanThreshold::Percent50,
        RawOverhangFanThreshold::Percent75,
        RawOverhangFanThreshold::Percent95,
    ] {
        assert_eq!(RawOverhangFanThreshold::from_token(t.token()), Some(t));
    }
    assert_eq!(RawOverhangFanThreshold::Percent25.token(), "25%");
    assert_eq!(RawOverhangFanThreshold::from_token("30%"), None);
    assert_eq!(RawOverhangFanThreshold::default(), RawOverhangFanThreshold::Percent95);

    let source = strings(&["A", "B", "C"]);
    let child = strings(&["C", "A", "A"]);
    assert_eq!(profile_variant_mapping(&source, Some(&child)), vec![Some(1), None, Some(0)]);
    assert_eq!(profile_variant_mapping(&source, None), vec![Some(0), None, None]);
    assert_eq!(profile_variant_mapping(&source, Some(&vec![])), vec![Some(0), None, None]);
    assert_eq!(profile_variant_mapping(&vec![], Some(&child)), vec![Some(0)]);
    assert!(is_known_field("filament_type"));
    assert!(!is_known_field("definitely_not_a_field"));
}

#[test]
fn cli_defaults_settle_after_one_pass() {
    let mut ams = strings(&["", ""]);
    let mut multipliers = vec![0.5f64];
    let mut matrix = vec![1.0f64, 2.0, 3.0, 4.0];
    prepare_multi_extruder_cli_defaults(3, false, 2, &mut ams, &mut multipliers, 1.0, &mut matrix, 0.0);
    let once = (ams.clone(), multipliers.clone(), matrix.clone());
    prepare_multi_extruder_cli_defaults(3, false, 2, &mut ams, &mut multipliers, 1.0, &mut matrix, 0.0);
    assert_eq!((ams, multipliers, matrix), once);
    assert_eq!(once.0, strings(&["1#0|4#1", "1#0|4#1", "1#0|4#1"]));
    assert_eq!(once.1, vec![0.5, 1.0, 1.0]);
}

#[test]
fn scaled_flush_segments_cover_the_matrix() {
    for (heads, filaments) in [(1usize, 1usize), (2, 3), (3, 4)] {
        let len = filaments * filaments * heads;
        match flush_matrix_scaling(heads, filaments, len).unwrap() {
            FlushMatrixScaling::Scale { segment_len } => {
                assert_eq!(segment_len, filaments * filaments);
                assert_eq!(segment_len * heads, len);
            }
            FlushMatrixScaling::Keep => panic!("expected scaling"),
        }
    }
}
