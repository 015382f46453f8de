//! The option keys that a config block carries for every printer, kept in
//! two sorted halves split at `make_overhang_printable`. The list holds the
//! filament option keys, the plate temperature keys and the retraction and
//! wipe tower keys that the config block writer relies on; it is not the
//! whole canonical key set of the slicer.
use vstd::prelude::*;
use crate::key_order::{key_less, key_lt, lemma_key_less_irreflexive};
use crate::text::str_eq;

verus! {

/// A key of the first half of the set: those before `make_overhang_printable`.
pub open spec fn is_first_half_key(k: Seq<char>) -> bool {
    k == "accel_to_decel_enable"@
        || k == "activate_air_filtration"@
        || k == "activate_air_filtration_during_print"@
        || k == "activate_air_filtration_on_completion"@
        || k == "activate_chamber_temp_control"@
        || k == "adaptive_pressure_advance"@
        || k == "adaptive_pressure_advance_bridges"@
        || k == "adaptive_pressure_advance_model"@
        || k == "adaptive_pressure_advance_overhangs"@
        || k == "additional_cooling_fan_speed"@
        || k == "additional_fan_full_speed_layer"@
        || k == "chamber_minimal_temperature"@
        || k == "chamber_temperature"@
        || k == "close_additional_fan_first_x_layers"@
        || k == "close_fan_the_first_x_layers"@
        || k == "complete_print_exhaust_fan_speed"@
        || k == "cool_plate_temp"@
        || k == "cool_plate_temp_initial_layer"@
        || k == "default_filament_colour"@
        || k == "deretraction_speed"@
        || k == "dont_slow_down_outer_wall"@
        || k == "during_print_exhaust_fan_speed"@
        || k == "enable_overhang_bridge_fan"@
        || k == "enable_pressure_advance"@
        || k == "eng_plate_temp"@
        || k == "eng_plate_temp_initial_layer"@
        || k == "fan_cooling_layer_time"@
        || k == "fan_max_speed"@
        || k == "fan_min_speed"@
        || k == "filament_adaptive_volumetric_speed"@
        || k == "filament_adhesiveness_category"@
        || k == "filament_change_extrusion_role_gcode"@
        || k == "filament_change_length"@
        || k == "filament_colour"@
        || k == "filament_cooling_before_tower"@
        || k == "filament_cooling_final_speed"@
        || k == "filament_cooling_initial_speed"@
        || k == "filament_cooling_moves"@
        || k == "filament_cost"@
        || k == "filament_density"@
        || k == "filament_deretraction_speed"@
        || k == "filament_diameter"@
        || k == "filament_end_gcode"@
        || k == "filament_extruder_variant"@
        || k == "filament_flow_ratio"@
        || k == "filament_flush_temp"@
        || k == "filament_flush_volumetric_speed"@
        || k == "filament_ironing_flow"@
        || k == "filament_ironing_inset"@
        || k == "filament_ironing_spacing"@
        || k == "filament_ironing_speed"@
        || k == "filament_is_support"@
        || k == "filament_loading_speed"@
        || k == "filament_loading_speed_start"@
        || k == "filament_long_retractions_when_cut"@
        || k == "filament_max_volumetric_speed"@
        || k == "filament_minimal_purge_on_wipe_tower"@
        || k == "filament_multitool_ramming"@
        || k == "filament_multitool_ramming_flow"@
        || k == "filament_multitool_ramming_volume"@
        || k == "filament_notes"@
        || k == "filament_printable"@
        || k == "filament_ramming_parameters"@
        || k == "filament_retract_before_wipe"@
        || k == "filament_retract_lift_above"@
        || k == "filament_retract_lift_below"@
        || k == "filament_retract_lift_enforce"@
        || k == "filament_retract_restart_extra"@
        || k == "filament_retract_when_changing_layer"@
        || k == "filament_retraction_distances_when_cut"@
        || k == "filament_retraction_length"@
        || k == "filament_retraction_minimum_travel"@
        || k == "filament_retraction_speed"@
        || k == "filament_shrink"@
        || k == "filament_shrinkage_compensation_z"@
        || k == "filament_soluble"@
        || k == "filament_stamping_distance"@
        || k == "filament_stamping_loading_speed"@
        || k == "filament_start_gcode"@
        || k == "filament_toolchange_delay"@
        || k == "filament_tower_interface_pre_extrusion_dist"@
        || k == "filament_tower_interface_pre_extrusion_length"@
        || k == "filament_tower_interface_print_temp"@
        || k == "filament_tower_interface_purge_volume"@
        || k == "filament_tower_ironing_area"@
        || k == "filament_type"@
        || k == "filament_unloading_speed"@
        || k == "filament_unloading_speed_start"@
        || k == "filament_vendor"@
        || k == "filament_wipe"@
        || k == "filament_wipe_distance"@
        || k == "filament_z_hop"@
        || k == "filament_z_hop_types"@
        || k == "first_x_layer_fan_speed"@
        || k == "full_fan_speed_layer"@
        || k == "hot_plate_temp"@
        || k == "hot_plate_temp_initial_layer"@
        || k == "idle_temperature"@
        || k == "internal_bridge_fan_speed"@
        || k == "ironing_fan_speed"@
        || k == "long_retractions_when_cut"@
        || k == "long_retractions_when_ec"@
        || k == "machine_unload_filament_time"@
}

/// A key of the second half of the set: `make_overhang_printable` and after.
pub open spec fn is_second_half_key(k: Seq<char>) -> bool {
    k == "make_overhang_printable"@
        || k == "nozzle_temperature"@
        || k == "nozzle_temperature_initial_layer"@
        || k == "nozzle_temperature_range_high"@
        || k == "nozzle_temperature_range_low"@
        || k == "overhang_fan_speed"@
        || k == "overhang_fan_threshold"@
        || k == "pressure_advance"@
        || k == "reduce_fan_stop_start_freq"@
        || k == "retract_before_wipe"@
        || k == "retract_lift_above"@
        || k == "retract_lift_below"@
        || k == "retract_lift_enforce"@
        || k == "retract_restart_extra"@
        || k == "retract_when_changing_layer"@
        || k == "retraction_distances_when_cut"@
        || k == "retraction_distances_when_ec"@
        || k == "retraction_length"@
        || k == "retraction_minimum_travel"@
        || k == "retraction_speed"@
        || k == "slow_down_for_layer_cooling"@
        || k == "slow_down_layer_time"@
        || k == "slow_down_min_speed"@
        || k == "supertack_plate_temp"@
        || k == "supertack_plate_temp_initial_layer"@
        || k == "support_material_interface_fan_speed"@
        || k == "temperature_vitrification"@
        || k == "textured_cool_plate_temp"@
        || k == "textured_cool_plate_temp_initial_layer"@
        || k == "textured_plate_temp"@
        || k == "textured_plate_temp_initial_layer"@
        || k == "volumetric_speed_coefficients"@
        || k == "wipe"@
        || k == "wipe_distance"@
        || k == "wipe_tower_x"@
        || k == "wipe_tower_y"@
        || k == "z_hop"@
        || k == "z_hop_types"@
}

/// Whether `key` is in the first half.
fn first_half_contains(key: &str) -> (r: bool)
    ensures
        r == is_first_half_key(key@),
{
    str_eq(key, "accel_to_decel_enable")
        || str_eq(key, "activate_air_filtration")
        || str_eq(key, "activate_air_filtration_during_print")
        || str_eq(key, "activate_air_filtration_on_completion")
        || str_eq(key, "activate_chamber_temp_control")
        || str_eq(key, "adaptive_pressure_advance")
        || str_eq(key, "adaptive_pressure_advance_bridges")
        || str_eq(key, "adaptive_pressure_advance_model")
        || str_eq(key, "adaptive_pressure_advance_overhangs")
        || str_eq(key, "additional_cooling_fan_speed")
        || str_eq(key, "additional_fan_full_speed_layer")
        || str_eq(key, "chamber_minimal_temperature")
        || str_eq(key, "chamber_temperature")
        || str_eq(key, "close_additional_fan_first_x_layers")
        || str_eq(key, "close_fan_the_first_x_layers")
        || str_eq(key, "complete_print_exhaust_fan_speed")
        || str_eq(key, "cool_plate_temp")
        || str_eq(key, "cool_plate_temp_initial_layer")
        || str_eq(key, "default_filament_colour")
        || str_eq(key, "deretraction_speed")
        || str_eq(key, "dont_slow_down_outer_wall")
        || str_eq(key, "during_print_exhaust_fan_speed")
        || str_eq(key, "enable_overhang_bridge_fan")
        || str_eq(key, "enable_pressure_advance")
        || str_eq(key, "eng_plate_temp")
        || str_eq(key, "eng_plate_temp_initial_layer")
        || str_eq(key, "fan_cooling_layer_time")
        || str_eq(key, "fan_max_speed")
        || str_eq(key, "fan_min_speed")
        || str_eq(key, "filament_adaptive_volumetric_speed")
        || str_eq(key, "filament_adhesiveness_category")
        || str_eq(key, "filament_change_extrusion_role_gcode")
        || str_eq(key, "filament_change_length")
        || str_eq(key, "filament_colour")
        || str_eq(key, "filament_cooling_before_tower")
        || str_eq(key, "filament_cooling_final_speed")
        || str_eq(key, "filament_cooling_initial_speed")
        || str_eq(key, "filament_cooling_moves")
        || str_eq(key, "filament_cost")
        || str_eq(key, "filament_density")
        || str_eq(key, "filament_deretraction_speed")
        || str_eq(key, "filament_diameter")
        || str_eq(key, "filament_end_gcode")
        || str_eq(key, "filament_extruder_variant")
        || str_eq(key, "filament_flow_ratio")
        || str_eq(key, "filament_flush_temp")
        || str_eq(key, "filament_flush_volumetric_speed")
        || str_eq(key, "filament_ironing_flow")
        || str_eq(key, "filament_ironing_inset")
        || str_eq(key, "filament_ironing_spacing")
        || str_eq(key, "filament_ironing_speed")
        || str_eq(key, "filament_is_support")
        || str_eq(key, "filament_loading_speed")
        || str_eq(key, "filament_loading_speed_start")
        || str_eq(key, "filament_long_retractions_when_cut")
        || str_eq(key, "filament_max_volumetric_speed")
        || str_eq(key, "filament_minimal_purge_on_wipe_tower")
        || str_eq(key, "filament_multitool_ramming")
        || str_eq(key, "filament_multitool_ramming_flow")
        || str_eq(key, "filament_multitool_ramming_volume")
        || str_eq(key, "filament_notes")
        || str_eq(key, "filament_printable")
        || str_eq(key, "filament_ramming_parameters")
        || str_eq(key, "filament_retract_before_wipe")
        || str_eq(key, "filament_retract_lift_above")
        || str_eq(key, "filament_retract_lift_below")
        || str_eq(key, "filament_retract_lift_enforce")
        || str_eq(key, "filament_retract_restart_extra")
        || str_eq(key, "filament_retract_when_changing_layer")
        || str_eq(key, "filament_retraction_distances_when_cut")
        || str_eq(key, "filament_retraction_length")
        || str_eq(key, "filament_retraction_minimum_travel")
        || str_eq(key, "filament_retraction_speed")
        || str_eq(key, "filament_shrink")
        || str_eq(key, "filament_shrinkage_compensation_z")
        || str_eq(key, "filament_soluble")
        || str_eq(key, "filament_stamping_distance")
        || str_eq(key, "filament_stamping_loading_speed")
        || str_eq(key, "filament_start_gcode")
        || str_eq(key, "filament_toolchange_delay")
        || str_eq(key, "filament_tower_interface_pre_extrusion_dist")
        || str_eq(key, "filament_tower_interface_pre_extrusion_length")
        || str_eq(key, "filament_tower_interface_print_temp")
        || str_eq(key, "filament_tower_interface_purge_volume")
        || str_eq(key, "filament_tower_ironing_area")
        || str_eq(key, "filament_type")
        || str_eq(key, "filament_unloading_speed")
        || str_eq(key, "filament_unloading_speed_start")
        || str_eq(key, "filament_vendor")
        || str_eq(key, "filament_wipe")
        || str_eq(key, "filament_wipe_distance")
        || str_eq(key, "filament_z_hop")
        || str_eq(key, "filament_z_hop_types")
        || str_eq(key, "first_x_layer_fan_speed")
        || str_eq(key, "full_fan_speed_layer")
        || str_eq(key, "hot_plate_temp")
        || str_eq(key, "hot_plate_temp_initial_layer")
        || str_eq(key, "idle_temperature")
        || str_eq(key, "internal_bridge_fan_speed")
        || str_eq(key, "ironing_fan_speed")
        || str_eq(key, "long_retractions_when_cut")
        || str_eq(key, "long_retractions_when_ec")
        || str_eq(key, "machine_unload_filament_time")
}

/// Whether `key` is in the second half.
fn second_half_contains(key: &str) -> (r: bool)
    ensures
        r == is_second_half_key(key@),
{
    str_eq(key, "make_overhang_printable")
        || str_eq(key, "nozzle_temperature")
        || str_eq(key, "nozzle_temperature_initial_layer")
        || str_eq(key, "nozzle_temperature_range_high")
        || str_eq(key, "nozzle_temperature_range_low")
        || str_eq(key, "overhang_fan_speed")
        || str_eq(key, "overhang_fan_threshold")
        || str_eq(key, "pressure_advance")
        || str_eq(key, "reduce_fan_stop_start_freq")
        || str_eq(key, "retract_before_wipe")
        || str_eq(key, "retract_lift_above")
        || str_eq(key, "retract_lift_below")
        || str_eq(key, "retract_lift_enforce")
        || str_eq(key, "retract_restart_extra")
        || str_eq(key, "retract_when_changing_layer")
        || str_eq(key, "retraction_distances_when_cut")
        || str_eq(key, "retraction_distances_when_ec")
        || str_eq(key, "retraction_length")
        || str_eq(key, "retraction_minimum_travel")
        || str_eq(key, "retraction_speed")
        || str_eq(key, "slow_down_for_layer_cooling")
        || str_eq(key, "slow_down_layer_time")
        || str_eq(key, "slow_down_min_speed")
        || str_eq(key, "supertack_plate_temp")
        || str_eq(key, "supertack_plate_temp_initial_layer")
        || str_eq(key, "support_material_interface_fan_speed")
        || str_eq(key, "temperature_vitrification")
        || str_eq(key, "textured_cool_plate_temp")
        || str_eq(key, "textured_cool_plate_temp_initial_layer")
        || str_eq(key, "textured_plate_temp")
        || str_eq(key, "textured_plate_temp_initial_layer")
        || str_eq(key, "volumetric_speed_coefficients")
        || str_eq(key, "wipe")
        || str_eq(key, "wipe_distance")
        || str_eq(key, "wipe_tower_x")
        || str_eq(key, "wipe_tower_y")
        || str_eq(key, "z_hop")
        || str_eq(key, "z_hop_types")
}

/// Whether `key` is a canonical config block key: looked up in the half
/// that its place relative to `make_overhang_printable` selects.
pub fn contains(key: &str) -> (r: bool)
    ensures
        r == if key_less(key@, "make_overhang_printable"@) {
            is_first_half_key(key@)
        } else {
            is_second_half_key(key@)
        },
{
    if key_lt(key, "make_overhang_printable") {
        first_half_contains(key)
    } else {
        second_half_contains(key)
    }
}


/// Every key of the first half comes before `make_overhang_printable`, and
/// none of the second half does.
proof fn lemma_halves_split(k: Seq<char>)
    ensures
        is_first_half_key(k) ==> key_less(k, "make_overhang_printable"@),
        is_second_half_key(k) ==> !key_less(k, "make_overhang_printable"@),
{
    reveal_strlit("make_overhang_printable");
    reveal_with_fuel(key_less, 3);
    if k == "accel_to_decel_enable"@ {
        reveal_strlit("accel_to_decel_enable");
        assert(key_less(k, "make_overhang_printable"@));
    }
    if k == "activate_air_filtration"@ {
        reveal_strlit("activate_air_filtration");
        assert(key_less(k, "make_overhang_printable"@));
    }
    if k == "activate_air_filtration_during_print"@ {
        reveal_strlit("activate_air_filtration_during_print");
        assert(key_less(k, "make_overhang_printable"@));
    }
    if k == "activate_air_filtration_on_completion"@ {
        reveal_strlit("activate_air_filtration_on_completion");
        assert(key_less(k, "make_overhang_printable"@));
    }
    if k == "activate_chamber_temp_control"@ {
        reveal_strlit("activate_chamber_temp_control");
        assert(key_less(k, "make_overhang_printable"@));
    }
    if k == "adaptive_pressure_advance"@ {
        reveal_strlit("adaptive_pressure_advance");
        assert(key_less(k, "make_overhang_printable"@));
    }
    if k == "adaptive_pressure_advance_bridges"@ {
        reveal_strlit("adaptive_pressure_advance_bridges");
        assert(key_less(k, "make_overhang_printable"@));
    }
    if k == "adaptive_pressure_advance_model"@ {
        reveal_strlit("adaptive_pressure_advance_model");
        assert(key_less(k, "make_overhang_printable"@));
    }
    if k == "adaptive_pressure_advance_overhangs"@ {
        reveal_strlit("adaptive_pressure_advance_overhangs");
        assert(key_less(k, "make_overhang_printable"@));
    }
    if k == "additional_cooling_fan_speed"@ {
        reveal_strlit("additional_cooling_fan_speed");
        assert(key_less(k, "make_overhang_printable"@));
    }
    if k == "additional_fan_full_speed_layer"@ {
        reveal_strlit("additional_fan_full_speed_layer");
        assert(key_less(k, "make_overhang_printable"@));
    }
    if k == "chamber_minimal_temperature"@ {
        reveal_strlit("chamber_minimal_temperature");
        assert(key_less(k, "make_overhang_printable"@));
    }
    if k == "chamber_temperature"@ {
        reveal_strlit("chamber_temperature");
        assert(key_less(k, "make_overhang_printable"@));
    }
    if k == "close_additional_fan_first_x_layers"@ {
        reveal_strlit("close_additional_fan_first_x_layers");
        assert(key_less(k, "make_overhang_printable"@));
    }
    if k == "close_fan_the_first_x_layers"@ {
        reveal_strlit("close_fan_the_first_x_layers");
        assert(key_less(k, "make_overhang_printable"@));
    }
    if k == "complete_print_exhaust_fan_speed"@ {
        reveal_strlit("complete_print_exhaust_fan_speed");
        assert(key_less(k, "make_overhang_printable"@));
    }
    if k == "cool_plate_temp"@ {
        reveal_strlit("cool_plate_temp");
        assert(key_less(k, "make_overhang_printable"@));
    }
    if k == "cool_plate_temp_initial_layer"@ {
        reveal_strlit("cool_plate_temp_initial_layer");
        assert(key_less(k, "make_overhang_printable"@));
    }
    if k == "default_filament_colour"@ {
        reveal_strlit("default_filament_colour");
        assert(key_less(k, "make_overhang_printable"@));
    }
    if k == "deretraction_speed"@ {
        reveal_strlit("deretraction_speed");
        assert(key_less(k, "make_overhang_printable"@));
    }
    if k == "dont_slow_down_outer_wall"@ {
        reveal_strlit("dont_slow_down_outer_wall");
        assert(key_less(k, "make_overhang_printable"@));
    }
    if k == "during_print_exhaust_fan_speed"@ {
        reveal_strlit("during_print_exhaust_fan_speed");
        assert(key_less(k, "make_overhang_printable"@));
    }
    if k == "enable_overhang_bridge_fan"@ {
        reveal_strlit("enable_overhang_bridge_fan");
        assert(key_less(k, "make_overhang_printable"@));
    }
    if k == "enable_pressure_advance"@ {
        reveal_strlit("enable_pressure_advance");
        assert(key_less(k, "make_overhang_printable"@));
    }
    if k == "eng_plate_temp"@ {
        reveal_strlit("eng_plate_temp");
        assert(key_less(k, "make_overhang_printable"@));
    }
    if k == "eng_plate_temp_initial_layer"@ {
        reveal_strlit("eng_plate_temp_initial_layer");
        assert(key_less(k, "make_overhang_printable"@));
    }
    if k == "fan_cooling_layer_time"@ {
        reveal_strlit("fan_cooling_layer_time");
        assert(key_less(k, "make_overhang_printable"@));
    }
    if k == "fan_max_speed"@ {
        reveal_strlit("fan_max_speed");
        assert(key_less(k, "make_overhang_printable"@));
    }
    if k == "fan_min_speed"@ {
        reveal_strlit("fan_min_speed");
        assert(key_less(k, "make_overhang_printable"@));
    }
    if k == "filament_adaptive_volumetric_speed"@ {
        reveal_strlit("filament_adaptive_volumetric_speed");
        assert(key_less(k, "make_overhang_printable"@));
    }
    if k == "filament_adhesiveness_category"@ {
        reveal_strlit("filament_adhesiveness_category");
        assert(key_less(k, "make_overhang_printable"@));
    }
    if k == "filament_change_extrusion_role_gcode"@ {
        reveal_strlit("filament_change_extrusion_role_gcode");
        assert(key_less(k, "make_overhang_printable"@));
    }
    if k == "filament_change_length"@ {
        reveal_strlit("filament_change_length");
        assert(key_less(k, "make_overhang_printable"@));
    }
    if k == "filament_colour"@ {
        reveal_strlit("filament_colour");
        assert(key_less(k, "make_overhang_printable"@));
    }
    if k == "filament_cooling_before_tower"@ {
        reveal_strlit("filament_cooling_before_tower");
        assert(key_less(k, "make_overhang_printable"@));
    }
    if k == "filament_cooling_final_speed"@ {
        reveal_strlit("filament_cooling_final_speed");
        assert(key_less(k, "make_overhang_printable"@));
    }
    if k == "filament_cooling_initial_speed"@ {
        reveal_strlit("filament_cooling_initial_speed");
        assert(key_less(k, "make_overhang_printable"@));
    }
    if k == "filament_cooling_moves"@ {
        reveal_strlit("filament_cooling_moves");
        assert(key_less(k, "make_overhang_printable"@));
    }
    if k == "filament_cost"@ {
        reveal_strlit("filament_cost");
        assert(key_less(k, "make_overhang_printable"@));
    }
    if k == "filament_density"@ {
        reveal_strlit("filament_density");
        assert(key_less(k, "make_overhang_printable"@));
    }
    if k == "filament_deretraction_speed"@ {
        reveal_strlit("filament_deretraction_speed");
        assert(key_less(k, "make_overhang_printable"@));
    }
    if k == "filament_diameter"@ {
        reveal_strlit("filament_diameter");
        assert(key_less(k, "make_overhang_printable"@));
    }
    if k == "filament_end_gcode"@ {
        reveal_strlit("filament_end_gcode");
        assert(key_less(k, "make_overhang_printable"@));
    }
    if k == "filament_extruder_variant"@ {
        reveal_strlit("filament_extruder_variant");
        assert(key_less(k, "make_overhang_printable"@));
    }
    if k == "filament_flow_ratio"@ {
        reveal_strlit("filament_flow_ratio");
        assert(key_less(k, "make_overhang_printable"@));
    }
    if k == "filament_flush_temp"@ {
        reveal_strlit("filament_flush_temp");
        assert(key_less(k, "make_overhang_printable"@));
    }
    if k == "filament_flush_volumetric_speed"@ {
        reveal_strlit("filament_flush_volumetric_speed");
        assert(key_less(k, "make_overhang_printable"@));
    }
    if k == "filament_ironing_flow"@ {
        reveal_strlit("filament_ironing_flow");
        assert(key_less(k, "make_overhang_printable"@));
    }
    if k == "filament_ironing_inset"@ {
        reveal_strlit("filament_ironing_inset");
        assert(key_less(k, "make_overhang_printable"@));
    }
    if k == "filament_ironing_spacing"@ {
        reveal_strlit("filament_ironing_spacing");
        assert(key_less(k, "make_overhang_printable"@));
    }
    if k == "filament_ironing_speed"@ {
        reveal_strlit("filament_ironing_speed");
        assert(key_less(k, "make_overhang_printable"@));
    }
    if k == "filament_is_support"@ {
        reveal_strlit("filament_is_support");
        assert(key_less(k, "make_overhang_printable"@));
    }
    if k == "filament_loading_speed"@ {
        reveal_strlit("filament_loading_speed");
        assert(key_less(k, "make_overhang_printable"@));
    }
    if k == "filament_loading_speed_start"@ {
        reveal_strlit("filament_loading_speed_start");
        assert(key_less(k, "make_overhang_printable"@));
    }
    if k == "filament_long_retractions_when_cut"@ {
        reveal_strlit("filament_long_retractions_when_cut");
        assert(key_less(k, "make_overhang_printable"@));
    }
    if k == "filament_max_volumetric_speed"@ {
        reveal_strlit("filament_max_volumetric_speed");
        assert(key_less(k, "make_overhang_printable"@));
    }
    if k == "filament_minimal_purge_on_wipe_tower"@ {
        reveal_strlit("filament_minimal_purge_on_wipe_tower");
        assert(key_less(k, "make_overhang_printable"@));
    }
    if k == "filament_multitool_ramming"@ {
        reveal_strlit("filament_multitool_ramming");
        assert(key_less(k, "make_overhang_printable"@));
    }
    if k == "filament_multitool_ramming_flow"@ {
        reveal_strlit("filament_multitool_ramming_flow");
        assert(key_less(k, "make_overhang_printable"@));
    }
    if k == "filament_multitool_ramming_volume"@ {
        reveal_strlit("filament_multitool_ramming_volume");
        assert(key_less(k, "make_overhang_printable"@));
    }
    if k == "filament_notes"@ {
        reveal_strlit("filament_notes");
        assert(key_less(k, "make_overhang_printable"@));
    }
    if k == "filament_printable"@ {
        reveal_strlit("filament_printable");
        assert(key_less(k, "make_overhang_printable"@));
    }
    if k == "filament_ramming_parameters"@ {
        reveal_strlit("filament_ramming_parameters");
        assert(key_less(k, "make_overhang_printable"@));
    }
    if k == "filament_retract_before_wipe"@ {
        reveal_strlit("filament_retract_before_wipe");
        assert(key_less(k, "make_overhang_printable"@));
    }
    if k == "filament_retract_lift_above"@ {
        reveal_strlit("filament_retract_lift_above");
        assert(key_less(k, "make_overhang_printable"@));
    }
    if k == "filament_retract_lift_below"@ {
        reveal_strlit("filament_retract_lift_below");
        assert(key_less(k, "make_overhang_printable"@));
    }
    if k == "filament_retract_lift_enforce"@ {
        reveal_strlit("filament_retract_lift_enforce");
        assert(key_less(k, "make_overhang_printable"@));
    }
    if k == "filament_retract_restart_extra"@ {
        reveal_strlit("filament_retract_restart_extra");
        assert(key_less(k, "make_overhang_printable"@));
    }
    if k == "filament_retract_when_changing_layer"@ {
        reveal_strlit("filament_retract_when_changing_layer");
        assert(key_less(k, "make_overhang_printable"@));
    }
    if k == "filament_retraction_distances_when_cut"@ {
        reveal_strlit("filament_retraction_distances_when_cut");
        assert(key_less(k, "make_overhang_printable"@));
    }
    if k == "filament_retraction_length"@ {
        reveal_strlit("filament_retraction_length");
        assert(key_less(k, "make_overhang_printable"@));
    }
    if k == "filament_retraction_minimum_travel"@ {
        reveal_strlit("filament_retraction_minimum_travel");
        assert(key_less(k, "make_overhang_printable"@));
    }
    if k == "filament_retraction_speed"@ {
        reveal_strlit("filament_retraction_speed");
        assert(key_less(k, "make_overhang_printable"@));
    }
    if k == "filament_shrink"@ {
        reveal_strlit("filament_shrink");
        assert(key_less(k, "make_overhang_printable"@));
    }
    if k == "filament_shrinkage_compensation_z"@ {
        reveal_strlit("filament_shrinkage_compensation_z");
        assert(key_less(k, "make_overhang_printable"@));
    }
    if k == "filament_soluble"@ {
        reveal_strlit("filament_soluble");
        assert(key_less(k, "make_overhang_printable"@));
    }
    if k == "filament_stamping_distance"@ {
        reveal_strlit("filament_stamping_distance");
        assert(key_less(k, "make_overhang_printable"@));
    }
    if k == "filament_stamping_loading_speed"@ {
        reveal_strlit("filament_stamping_loading_speed");
        assert(key_less(k, "make_overhang_printable"@));
    }
    if k == "filament_start_gcode"@ {
        reveal_strlit("filament_start_gcode");
        assert(key_less(k, "make_overhang_printable"@));
    }
    if k == "filament_toolchange_delay"@ {
        reveal_strlit("filament_toolchange_delay");
        assert(key_less(k, "make_overhang_printable"@));
    }
    if k == "filament_tower_interface_pre_extrusion_dist"@ {
        reveal_strlit("filament_tower_interface_pre_extrusion_dist");
        assert(key_less(k, "make_overhang_printable"@));
    }
    if k == "filament_tower_interface_pre_extrusion_length"@ {
        reveal_strlit("filament_tower_interface_pre_extrusion_length");
        assert(key_less(k, "make_overhang_printable"@));
    }
    if k == "filament_tower_interface_print_temp"@ {
        reveal_strlit("filament_tower_interface_print_temp");
        assert(key_less(k, "make_overhang_printable"@));
    }
    if k == "filament_tower_interface_purge_volume"@ {
        reveal_strlit("filament_tower_interface_purge_volume");
        assert(key_less(k, "make_overhang_printable"@));
    }
    if k == "filament_tower_ironing_area"@ {
        reveal_strlit("filament_tower_ironing_area");
        assert(key_less(k, "make_overhang_printable"@));
    }
    if k == "filament_type"@ {
        reveal_strlit("filament_type");
        assert(key_less(k, "make_overhang_printable"@));
    }
    if k == "filament_unloading_speed"@ {
        reveal_strlit("filament_unloading_speed");
        assert(key_less(k, "make_overhang_printable"@));
    }
    if k == "filament_unloading_speed_start"@ {
        reveal_strlit("filament_unloading_speed_start");
        assert(key_less(k, "make_overhang_printable"@));
    }
    if k == "filament_vendor"@ {
        reveal_strlit("filament_vendor");
        assert(key_less(k, "make_overhang_printable"@));
    }
    if k == "filament_wipe"@ {
        reveal_strlit("filament_wipe");
        assert(key_less(k, "make_overhang_printable"@));
    }
    if k == "filament_wipe_distance"@ {
        reveal_strlit("filament_wipe_distance");
        assert(key_less(k, "make_overhang_printable"@));
    }
    if k == "filament_z_hop"@ {
        reveal_strlit("filament_z_hop");
        assert(key_less(k, "make_overhang_printable"@));
    }
    if k == "filament_z_hop_types"@ {
        reveal_strlit("filament_z_hop_types");
        assert(key_less(k, "make_overhang_printable"@));
    }
    if k == "first_x_layer_fan_speed"@ {
        reveal_strlit("first_x_layer_fan_speed");
        assert(key_less(k, "make_overhang_printable"@));
    }
    if k == "full_fan_speed_layer"@ {
        reveal_strlit("full_fan_speed_layer");
        assert(key_less(k, "make_overhang_printable"@));
    }
    if k == "hot_plate_temp"@ {
        reveal_strlit("hot_plate_temp");
        assert(key_less(k, "make_overhang_printable"@));
    }
    if k == "hot_plate_temp_initial_layer"@ {
        reveal_strlit("hot_plate_temp_initial_layer");
        assert(key_less(k, "make_overhang_printable"@));
    }
    if k == "idle_temperature"@ {
        reveal_strlit("idle_temperature");
        assert(key_less(k, "make_overhang_printable"@));
    }
    if k == "internal_bridge_fan_speed"@ {
        reveal_strlit("internal_bridge_fan_speed");
        assert(key_less(k, "make_overhang_printable"@));
    }
    if k == "ironing_fan_speed"@ {
        reveal_strlit("ironing_fan_speed");
        assert(key_less(k, "make_overhang_printable"@));
    }
    if k == "long_retractions_when_cut"@ {
        reveal_strlit("long_retractions_when_cut");
        assert(key_less(k, "make_overhang_printable"@));
    }
    if k == "long_retractions_when_ec"@ {
        reveal_strlit("long_retractions_when_ec");
        assert(key_less(k, "make_overhang_printable"@));
    }
    if k == "machine_unload_filament_time"@ {
        reveal_strlit("machine_unload_filament_time");
        assert(key_less(k, "make_overhang_printable"@));
    }
    if k == "make_overhang_printable"@ {
        lemma_key_less_irreflexive(k);
    }
    if k == "nozzle_temperature"@ {
        reveal_strlit("nozzle_temperature");
    }
    if k == "nozzle_temperature_initial_layer"@ {
        reveal_strlit("nozzle_temperature_initial_layer");
    }
    if k == "nozzle_temperature_range_high"@ {
        reveal_strlit("nozzle_temperature_range_high");
    }
    if k == "nozzle_temperature_range_low"@ {
        reveal_strlit("nozzle_temperature_range_low");
    }
    if k == "overhang_fan_speed"@ {
        reveal_strlit("overhang_fan_speed");
    }
    if k == "overhang_fan_threshold"@ {
        reveal_strlit("overhang_fan_threshold");
    }
    if k == "pressure_advance"@ {
        reveal_strlit("pressure_advance");
    }
    if k == "reduce_fan_stop_start_freq"@ {
        reveal_strlit("reduce_fan_stop_start_freq");
    }
    if k == "retract_before_wipe"@ {
        reveal_strlit("retract_before_wipe");
    }
    if k == "retract_lift_above"@ {
        reveal_strlit("retract_lift_above");
    }
    if k == "retract_lift_below"@ {
        reveal_strlit("retract_lift_below");
    }
    if k == "retract_lift_enforce"@ {
        reveal_strlit("retract_lift_enforce");
    }
    if k == "retract_restart_extra"@ {
        reveal_strlit("retract_restart_extra");
    }
    if k == "retract_when_changing_layer"@ {
        reveal_strlit("retract_when_changing_layer");
    }
    if k == "retraction_distances_when_cut"@ {
        reveal_strlit("retraction_distances_when_cut");
    }
    if k == "retraction_distances_when_ec"@ {
        reveal_strlit("retraction_distances_when_ec");
    }
    if k == "retraction_length"@ {
        reveal_strlit("retraction_length");
    }
    if k == "retraction_minimum_travel"@ {
        reveal_strlit("retraction_minimum_travel");
    }
    if k == "retraction_speed"@ {
        reveal_strlit("retraction_speed");
    }
    if k == "slow_down_for_layer_cooling"@ {
        reveal_strlit("slow_down_for_layer_cooling");
    }
    if k == "slow_down_layer_time"@ {
        reveal_strlit("slow_down_layer_time");
    }
    if k == "slow_down_min_speed"@ {
        reveal_strlit("slow_down_min_speed");
    }
    if k == "supertack_plate_temp"@ {
        reveal_strlit("supertack_plate_temp");
    }
    if k == "supertack_plate_temp_initial_layer"@ {
        reveal_strlit("supertack_plate_temp_initial_layer");
    }
    if k == "support_material_interface_fan_speed"@ {
        reveal_strlit("support_material_interface_fan_speed");
    }
    if k == "temperature_vitrification"@ {
        reveal_strlit("temperature_vitrification");
    }
    if k == "textured_cool_plate_temp"@ {
        reveal_strlit("textured_cool_plate_temp");
    }
    if k == "textured_cool_plate_temp_initial_layer"@ {
        reveal_strlit("textured_cool_plate_temp_initial_layer");
    }
    if k == "textured_plate_temp"@ {
        reveal_strlit("textured_plate_temp");
    }
    if k == "textured_plate_temp_initial_layer"@ {
        reveal_strlit("textured_plate_temp_initial_layer");
    }
    if k == "volumetric_speed_coefficients"@ {
        reveal_strlit("volumetric_speed_coefficients");
    }
    if k == "wipe"@ {
        reveal_strlit("wipe");
    }
    if k == "wipe_distance"@ {
        reveal_strlit("wipe_distance");
    }
    if k == "wipe_tower_x"@ {
        reveal_strlit("wipe_tower_x");
    }
    if k == "wipe_tower_y"@ {
        reveal_strlit("wipe_tower_y");
    }
    if k == "z_hop"@ {
        reveal_strlit("z_hop");
    }
    if k == "z_hop_types"@ {
        reveal_strlit("z_hop_types");
    }
}

/// Looking a key up in the half that its place selects finds exactly the
/// keys of the whole set.
pub proof fn lemma_contains_is_membership(key: Seq<char>)
    ensures
        (if key_less(key, "make_overhang_printable"@) {
            is_first_half_key(key)
        } else {
            is_second_half_key(key)
        }) == (is_first_half_key(key) || is_second_half_key(key)),
{
    lemma_halves_split(key);
}

} // verus!
