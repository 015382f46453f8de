//! Filament profile values that are not floats: the overhang fan threshold
//! and how a child profile's extruder variants map onto its parent's.
use vstd::prelude::*;
use crate::text::str_eq;

verus! {

/// The overhang share from which the overhang fan runs.
#[derive(Clone, Copy, Debug, PartialEq, Eq, Structural)]
pub enum RawOverhangFanThreshold {
    Percent0,
    Percent10,
    Percent25,
    Percent50,
    Percent75,
    Percent95,
}

/// The text of a threshold in a profile.
pub open spec fn threshold_text(t: RawOverhangFanThreshold) -> Seq<char> {
    match t {
        RawOverhangFanThreshold::Percent0 => "0%"@,
        RawOverhangFanThreshold::Percent10 => "10%"@,
        RawOverhangFanThreshold::Percent25 => "25%"@,
        RawOverhangFanThreshold::Percent50 => "50%"@,
        RawOverhangFanThreshold::Percent75 => "75%"@,
        RawOverhangFanThreshold::Percent95 => "95%"@,
    }
}

impl RawOverhangFanThreshold {
    /// The text of the threshold in a profile.
    pub fn token(self) -> (r: &'static str)
        ensures
            r@ == threshold_text(self),
    {
        match self {
            RawOverhangFanThreshold::Percent0 => "0%",
            RawOverhangFanThreshold::Percent10 => "10%",
            RawOverhangFanThreshold::Percent25 => "25%",
            RawOverhangFanThreshold::Percent50 => "50%",
            RawOverhangFanThreshold::Percent75 => "75%",
            RawOverhangFanThreshold::Percent95 => "95%",
        }
    }

    /// The threshold whose text is `text`, if any.
    pub fn from_token(text: &str) -> (r: Option<Self>)
        ensures
            match r {
                Some(t) => threshold_text(t) == text@,
                None => forall|t: RawOverhangFanThreshold| threshold_text(t) != text@,
            },
    {
        proof {
            reveal_strlit("0%");
            reveal_strlit("10%");
            reveal_strlit("25%");
            reveal_strlit("50%");
            reveal_strlit("75%");
            reveal_strlit("95%");
        }
        if str_eq(text, "0%") {
            Some(RawOverhangFanThreshold::Percent0)
        } else if str_eq(text, "10%") {
            Some(RawOverhangFanThreshold::Percent10)
        } else if str_eq(text, "25%") {
            Some(RawOverhangFanThreshold::Percent25)
        } else if str_eq(text, "50%") {
            Some(RawOverhangFanThreshold::Percent50)
        } else if str_eq(text, "75%") {
            Some(RawOverhangFanThreshold::Percent75)
        } else if str_eq(text, "95%") {
            Some(RawOverhangFanThreshold::Percent95)
        } else {
            None
        }
    }
}

/// Different thresholds have different texts, so a threshold's text reads
/// back as the threshold.
pub proof fn lemma_threshold_texts_differ(a: RawOverhangFanThreshold, b: RawOverhangFanThreshold)
    ensures
        threshold_text(a) == threshold_text(b) ==> a == b,
{
    reveal_strlit("0%");
    reveal_strlit("10%");
    reveal_strlit("25%");
    reveal_strlit("50%");
    reveal_strlit("75%");
    reveal_strlit("95%");
    if threshold_text(a) == threshold_text(b) {
        let t = threshold_text(a);
        assert(t == threshold_text(b));
        assert(t.len() == threshold_text(b).len());
        assert(t[0] == threshold_text(b)[0]);
    }
}

impl Default for RawOverhangFanThreshold {
    /// 95%.
    fn default() -> (r: Self)
        ensures
            r == RawOverhangFanThreshold::Percent95,
    {
        RawOverhangFanThreshold::Percent95
    }
}

/// Whether `r` is the index of the first entry of `s` equal to `x`, or
/// `None` when no entry is.
pub open spec fn is_first_position(s: Seq<Seq<char>>, x: Seq<char>, r: Option<usize>) -> bool {
    match r {
        Some(j) => j < s.len() && s[j as int] == x && forall|k: int| 0 <= k < j ==> s[k] != x,
        None => forall|k: int| 0 <= k < s.len() ==> s[k] != x,
    }
}

/// Where each of the parent's extruder variants sits among the child's:
/// one slot at 0 when the parent has none; the first slot at 0 and no others
/// when the child names none; else each variant's first position in the
/// child's list.
pub open spec fn variant_mapping_ok(
    source: Seq<Seq<char>>,
    child: Option<Seq<Seq<char>>>,
    r: Seq<Option<usize>>,
) -> bool {
    if source.len() == 0 {
        r == seq![Some(0usize)]
    } else {
        match child {
            Some(c) if c.len() > 0 => r.len() == source.len() && forall|i: int|
                0 <= i < source.len() ==> is_first_position(c, source[i], #[trigger] r[i]),
            _ => r.len() == source.len() && r[0] == Some(0usize) && forall|i: int|
                1 <= i < source.len() ==> #[trigger] r[i] == None::<usize>,
        }
    }
}

/// The first position of `x` in `s`.
fn position_of(s: &Vec<String>, x: &String) -> (r: Option<usize>)
    ensures
        is_first_position(s@.map_values(|v: String| v@), x@, r),
{
    let ghost sv = s@.map_values(|v: String| v@);
    let mut k: usize = 0;
    while k < s.len()
        invariant
            k <= s@.len(),
            sv == s@.map_values(|v: String| v@),
            forall|j: int| 0 <= j < k ==> sv[j] != x@,
        decreases s@.len() - k,
    {
        if str_eq(s[k].as_str(), x.as_str()) {
            return Some(k);
        }
        k = k + 1;
    }
    None
}

/// Where each of the parent's extruder variants sits among a child
/// profile's.
pub fn profile_variant_mapping(source: &Vec<String>, child: Option<&Vec<String>>) -> (r: Vec<
    Option<usize>,
>)
    ensures
        variant_mapping_ok(
            source@.map_values(|v: String| v@),
            match child {
                Some(c) => Some(c@.map_values(|v: String| v@)),
                None => None,
            },
            r@,
        ),
{
    if source.len() == 0 {
        let mut one: Vec<Option<usize>> = Vec::new();
        one.push(Some(0));
        assert(one@ =~= seq![Some(0usize)]);
        return one;
    }
    let ghost sv = source@.map_values(|v: String| v@);
    match child {
        Some(c) if c.len() > 0 => {
            let ghost cv = c@.map_values(|v: String| v@);
            let mut out: Vec<Option<usize>> = Vec::new();
            let mut i: usize = 0;
            while i < source.len()
                invariant
                    i <= source@.len(),
                    out@.len() == i,
                    sv == source@.map_values(|v: String| v@),
                    cv == c@.map_values(|v: String| v@),
                    forall|j: int| 0 <= j < i ==> is_first_position(cv, sv[j], #[trigger] out@[j]),
                decreases source@.len() - i,
            {
                let p = position_of(c, &source[i]);
                out.push(p);
                i = i + 1;
            }
            out
        },
        _ => {
            let mut out: Vec<Option<usize>> = Vec::new();
            out.push(Some(0));
            let mut i: usize = 1;
            while i < source.len()
                invariant
                    1 <= i <= source@.len(),
                    out@.len() == i,
                    out@[0] == Some(0usize),
                    forall|j: int| 1 <= j < i ==> #[trigger] out@[j] == None::<usize>,
                decreases source@.len() - i,
            {
                out.push(None);
                i = i + 1;
            }
            out
        },
    }
}


/// A key of the G-code source group of filament options.
pub open spec fn is_gcode_option_key(k: Seq<char>) -> bool {
    k == "filament_end_gcode"@
        || k == "filament_flow_ratio"@
        || k == "enable_pressure_advance"@
        || k == "pressure_advance"@
        || k == "adaptive_pressure_advance"@
        || k == "adaptive_pressure_advance_overhangs"@
        || k == "adaptive_pressure_advance_model"@
        || k == "adaptive_pressure_advance_bridges"@
        || k == "filament_diameter"@
        || k == "filament_adaptive_volumetric_speed"@
        || k == "volumetric_speed_coefficients"@
        || k == "filament_adhesiveness_category"@
        || k == "filament_density"@
        || k == "filament_type"@
        || k == "filament_soluble"@
        || k == "filament_colour"@
        || k == "filament_vendor"@
        || k == "filament_is_support"@
        || k == "filament_printable"@
        || k == "filament_change_length"@
        || k == "filament_cost"@
        || k == "default_filament_colour"@
        || k == "temperature_vitrification"@
        || k == "filament_max_volumetric_speed"@
        || k == "required_nozzle_HRC"@
        || k == "filament_extruder_variant"@
        || k == "filament_flush_volumetric_speed"@
        || k == "filament_flush_temp"@
        || k == "retraction_distances_when_ec"@
        || k == "long_retractions_when_ec"@
        || k == "filament_start_gcode"@
        || k == "filament_change_extrusion_role_gcode"@
        || k == "filament_loading_speed"@
        || k == "filament_loading_speed_start"@
        || k == "filament_unloading_speed"@
        || k == "filament_unloading_speed_start"@
        || k == "filament_toolchange_delay"@
        || k == "filament_cooling_moves"@
        || k == "filament_cooling_initial_speed"@
        || k == "filament_minimal_purge_on_wipe_tower"@
        || k == "filament_cooling_before_tower"@
        || k == "filament_tower_interface_pre_extrusion_dist"@
        || k == "filament_tower_interface_pre_extrusion_length"@
        || k == "filament_tower_ironing_area"@
        || k == "filament_tower_interface_purge_volume"@
        || k == "filament_tower_interface_print_temp"@
        || k == "filament_cooling_final_speed"@
        || k == "filament_ramming_parameters"@
        || k == "filament_multitool_ramming"@
        || k == "filament_multitool_ramming_volume"@
        || k == "filament_multitool_ramming_flow"@
        || k == "filament_stamping_loading_speed"@
        || k == "filament_stamping_distance"@
}

fn gcode_option_key(key: &str) -> (r: bool)
    ensures
        r == is_gcode_option_key(key@),
{
    str_eq(key, "filament_end_gcode")
        || str_eq(key, "filament_flow_ratio")
        || str_eq(key, "enable_pressure_advance")
        || str_eq(key, "pressure_advance")
        || str_eq(key, "adaptive_pressure_advance")
        || str_eq(key, "adaptive_pressure_advance_overhangs")
        || str_eq(key, "adaptive_pressure_advance_model")
        || str_eq(key, "adaptive_pressure_advance_bridges")
        || str_eq(key, "filament_diameter")
        || str_eq(key, "filament_adaptive_volumetric_speed")
        || str_eq(key, "volumetric_speed_coefficients")
        || str_eq(key, "filament_adhesiveness_category")
        || str_eq(key, "filament_density")
        || str_eq(key, "filament_type")
        || str_eq(key, "filament_soluble")
        || str_eq(key, "filament_colour")
        || str_eq(key, "filament_vendor")
        || str_eq(key, "filament_is_support")
        || str_eq(key, "filament_printable")
        || str_eq(key, "filament_change_length")
        || str_eq(key, "filament_cost")
        || str_eq(key, "default_filament_colour")
        || str_eq(key, "temperature_vitrification")
        || str_eq(key, "filament_max_volumetric_speed")
        || str_eq(key, "required_nozzle_HRC")
        || str_eq(key, "filament_extruder_variant")
        || str_eq(key, "filament_flush_volumetric_speed")
        || str_eq(key, "filament_flush_temp")
        || str_eq(key, "retraction_distances_when_ec")
        || str_eq(key, "long_retractions_when_ec")
        || str_eq(key, "filament_start_gcode")
        || str_eq(key, "filament_change_extrusion_role_gcode")
        || str_eq(key, "filament_loading_speed")
        || str_eq(key, "filament_loading_speed_start")
        || str_eq(key, "filament_unloading_speed")
        || str_eq(key, "filament_unloading_speed_start")
        || str_eq(key, "filament_toolchange_delay")
        || str_eq(key, "filament_cooling_moves")
        || str_eq(key, "filament_cooling_initial_speed")
        || str_eq(key, "filament_minimal_purge_on_wipe_tower")
        || str_eq(key, "filament_cooling_before_tower")
        || str_eq(key, "filament_tower_interface_pre_extrusion_dist")
        || str_eq(key, "filament_tower_interface_pre_extrusion_length")
        || str_eq(key, "filament_tower_ironing_area")
        || str_eq(key, "filament_tower_interface_purge_volume")
        || str_eq(key, "filament_tower_interface_print_temp")
        || str_eq(key, "filament_cooling_final_speed")
        || str_eq(key, "filament_ramming_parameters")
        || str_eq(key, "filament_multitool_ramming")
        || str_eq(key, "filament_multitool_ramming_volume")
        || str_eq(key, "filament_multitool_ramming_flow")
        || str_eq(key, "filament_stamping_loading_speed")
        || str_eq(key, "filament_stamping_distance")
}

/// A key of the print source group of filament options.
pub open spec fn is_print_option_key(k: Seq<char>) -> bool {
    k == "additional_cooling_fan_speed"@
        || k == "close_additional_fan_first_x_layers"@
        || k == "additional_fan_full_speed_layer"@
        || k == "first_x_layer_fan_speed"@
        || k == "cool_plate_temp"@
        || k == "textured_cool_plate_temp"@
        || k == "supertack_plate_temp"@
        || k == "eng_plate_temp"@
        || k == "hot_plate_temp"@
        || k == "textured_plate_temp"@
        || k == "supertack_plate_temp_initial_layer"@
        || k == "cool_plate_temp_initial_layer"@
        || k == "textured_cool_plate_temp_initial_layer"@
        || k == "eng_plate_temp_initial_layer"@
        || k == "hot_plate_temp_initial_layer"@
        || k == "textured_plate_temp_initial_layer"@
        || k == "enable_overhang_bridge_fan"@
        || k == "overhang_fan_speed"@
        || k == "overhang_fan_threshold"@
        || k == "slow_down_for_layer_cooling"@
        || k == "close_fan_the_first_x_layers"@
        || k == "reduce_fan_stop_start_freq"@
        || k == "dont_slow_down_outer_wall"@
        || k == "fan_cooling_layer_time"@
        || k == "activate_air_filtration"@
        || k == "activate_air_filtration_during_print"@
        || k == "activate_air_filtration_on_completion"@
        || k == "during_print_exhaust_fan_speed"@
        || k == "complete_print_exhaust_fan_speed"@
        || k == "nozzle_temperature_initial_layer"@
        || k == "full_fan_speed_layer"@
        || k == "fan_max_speed"@
        || k == "fan_min_speed"@
        || k == "slow_down_min_speed"@
        || k == "slow_down_layer_time"@
        || k == "nozzle_temperature"@
        || k == "nozzle_temperature_range_low"@
        || k == "nozzle_temperature_range_high"@
        || k == "idle_temperature"@
        || k == "filament_shrink"@
        || k == "filament_shrinkage_compensation_z"@
        || k == "support_material_interface_fan_speed"@
        || k == "internal_bridge_fan_speed"@
        || k == "ironing_fan_speed"@
        || k == "filament_notes"@
        || k == "activate_chamber_temp_control"@
        || k == "chamber_temperature"@
        || k == "chamber_minimal_temperature"@
}

fn print_option_key(key: &str) -> (r: bool)
    ensures
        r == is_print_option_key(key@),
{
    str_eq(key, "additional_cooling_fan_speed")
        || str_eq(key, "close_additional_fan_first_x_layers")
        || str_eq(key, "additional_fan_full_speed_layer")
        || str_eq(key, "first_x_layer_fan_speed")
        || str_eq(key, "cool_plate_temp")
        || str_eq(key, "textured_cool_plate_temp")
        || str_eq(key, "supertack_plate_temp")
        || str_eq(key, "eng_plate_temp")
        || str_eq(key, "hot_plate_temp")
        || str_eq(key, "textured_plate_temp")
        || str_eq(key, "supertack_plate_temp_initial_layer")
        || str_eq(key, "cool_plate_temp_initial_layer")
        || str_eq(key, "textured_cool_plate_temp_initial_layer")
        || str_eq(key, "eng_plate_temp_initial_layer")
        || str_eq(key, "hot_plate_temp_initial_layer")
        || str_eq(key, "textured_plate_temp_initial_layer")
        || str_eq(key, "enable_overhang_bridge_fan")
        || str_eq(key, "overhang_fan_speed")
        || str_eq(key, "overhang_fan_threshold")
        || str_eq(key, "slow_down_for_layer_cooling")
        || str_eq(key, "close_fan_the_first_x_layers")
        || str_eq(key, "reduce_fan_stop_start_freq")
        || str_eq(key, "dont_slow_down_outer_wall")
        || str_eq(key, "fan_cooling_layer_time")
        || str_eq(key, "activate_air_filtration")
        || str_eq(key, "activate_air_filtration_during_print")
        || str_eq(key, "activate_air_filtration_on_completion")
        || str_eq(key, "during_print_exhaust_fan_speed")
        || str_eq(key, "complete_print_exhaust_fan_speed")
        || str_eq(key, "nozzle_temperature_initial_layer")
        || str_eq(key, "full_fan_speed_layer")
        || str_eq(key, "fan_max_speed")
        || str_eq(key, "fan_min_speed")
        || str_eq(key, "slow_down_min_speed")
        || str_eq(key, "slow_down_layer_time")
        || str_eq(key, "nozzle_temperature")
        || str_eq(key, "nozzle_temperature_range_low")
        || str_eq(key, "nozzle_temperature_range_high")
        || str_eq(key, "idle_temperature")
        || str_eq(key, "filament_shrink")
        || str_eq(key, "filament_shrinkage_compensation_z")
        || str_eq(key, "support_material_interface_fan_speed")
        || str_eq(key, "internal_bridge_fan_speed")
        || str_eq(key, "ironing_fan_speed")
        || str_eq(key, "filament_notes")
        || str_eq(key, "activate_chamber_temp_control")
        || str_eq(key, "chamber_temperature")
        || str_eq(key, "chamber_minimal_temperature")
}

/// A key of the region source group of filament options.
pub open spec fn is_region_option_key(k: Seq<char>) -> bool {
    k == "filament_ironing_flow"@
        || k == "filament_ironing_spacing"@
        || k == "filament_ironing_inset"@
        || k == "filament_ironing_speed"@
}

fn region_option_key(key: &str) -> (r: bool)
    ensures
        r == is_region_option_key(key@),
{
    str_eq(key, "filament_ironing_flow")
        || str_eq(key, "filament_ironing_spacing")
        || str_eq(key, "filament_ironing_inset")
        || str_eq(key, "filament_ironing_speed")
}

/// A key of the retraction override group of filament options.
pub open spec fn is_retract_option_key(k: Seq<char>) -> bool {
    k == "filament_retraction_length"@
        || k == "filament_z_hop"@
        || k == "filament_z_hop_types"@
        || k == "filament_retract_lift_above"@
        || k == "filament_retract_lift_below"@
        || k == "filament_retract_lift_enforce"@
        || k == "filament_retraction_speed"@
        || k == "filament_deretraction_speed"@
        || k == "filament_retract_restart_extra"@
        || k == "filament_retraction_minimum_travel"@
        || k == "filament_wipe_distance"@
        || k == "filament_retract_when_changing_layer"@
        || k == "filament_wipe"@
        || k == "filament_retract_before_wipe"@
        || k == "filament_long_retractions_when_cut"@
        || k == "filament_retraction_distances_when_cut"@
}

fn retract_option_key(key: &str) -> (r: bool)
    ensures
        r == is_retract_option_key(key@),
{
    str_eq(key, "filament_retraction_length")
        || str_eq(key, "filament_z_hop")
        || str_eq(key, "filament_z_hop_types")
        || str_eq(key, "filament_retract_lift_above")
        || str_eq(key, "filament_retract_lift_below")
        || str_eq(key, "filament_retract_lift_enforce")
        || str_eq(key, "filament_retraction_speed")
        || str_eq(key, "filament_deretraction_speed")
        || str_eq(key, "filament_retract_restart_extra")
        || str_eq(key, "filament_retraction_minimum_travel")
        || str_eq(key, "filament_wipe_distance")
        || str_eq(key, "filament_retract_when_changing_layer")
        || str_eq(key, "filament_wipe")
        || str_eq(key, "filament_retract_before_wipe")
        || str_eq(key, "filament_long_retractions_when_cut")
        || str_eq(key, "filament_retraction_distances_when_cut")
}

/// A key that a filament profile may set: one of the four option groups,
/// or `pellet_flow_coefficient`.
pub open spec fn is_filament_option_key(k: Seq<char>) -> bool {
    is_gcode_option_key(k) || is_print_option_key(k) || is_region_option_key(k)
        || is_retract_option_key(k) || k == "pellet_flow_coefficient"@
}

/// Whether a filament profile may set `key`.
pub fn is_known_field(key: &str) -> (r: bool)
    ensures
        r == is_filament_option_key(key@),
{
    gcode_option_key(key) || print_option_key(key) || region_option_key(key) || retract_option_key(
        key,
    ) || str_eq(key, "pellet_flow_coefficient")
}

} // verus!
