pub mod error;
pub mod json;
pub mod option_map;
pub mod text;
pub mod slice_options;
pub mod filament_override;
pub mod extruder_index;
pub mod config_types;
pub mod bed_temperature;
pub mod filament_type;
pub mod custom_gcode;
pub mod filament_change;
pub mod chamber_temperature;
pub mod exhaust_fan;
pub mod flow_ratios;
pub mod filament_options;
pub mod config_value;
pub mod key_order;
pub mod config_collector;
pub mod orca_block_keys;
pub mod config_writer;
pub mod config_transform;
pub mod fdm_normalization;
pub mod extruder_variant;
pub mod different_extruders;
pub mod option_enums;
pub mod filament_map_recommend;
pub mod filament_config_export;
pub mod number_format;
pub mod auxiliary_fan;
pub mod fan_speedup;
