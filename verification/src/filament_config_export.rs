//! The config block text of filament and wipe tower options that are not
//! floats: string, boolean and integer vectors, scalar booleans and
//! integers, and the wipe tower enums.
use vstd::prelude::*;
use crate::config_value::quote_string_vector_element;
use crate::config_writer::string_vector_text;
use crate::error::{SliceError, invalid, invalid_message, message_of};
use crate::extruder_variant::{all_strings_of, strings_of_items};
use crate::json::{Json, JsonValue, json_as_bool, json_as_i64, models};
use crate::filament_override::{opt_model, string_views};
use crate::slice_options::SliceOptions;
use crate::extruder_index::opt_get;
use crate::text::{owned, str_eq, join_strings, join_with, views_of, i64_text, int_text};

verus! {

/// A result with its error as message text.
pub open spec fn export_agrees(r: Result<Option<String>, SliceError>, s: Result<Option<Seq<char>>, Seq<char>>) -> bool {
    match s {
        Ok(None) => r matches Ok(None),
        Ok(Some(t)) => r matches Ok(Some(x)) && x@ == t,
        Err(m) => r matches Err(e) && message_of(e) == m,
    }
}

/// One string vector element in a config block (quoted where needed).
pub fn serialize_config_option_string(value: &str, value_count: usize) -> (r: String)
    ensures
        r@ == crate::config_value::quoted_element(value@, value_count as nat),
{
    quote_string_vector_element(value, value_count)
}

/// A string vector in a config block: each element quoted where needed,
/// joined with `;`.
pub fn serialize_config_option_strings(values: &Vec<String>) -> (r: String)
    ensures
        r@ == string_vector_text(string_views(values@)),
{
    let mut parts: Vec<String> = Vec::new();
    let mut i: usize = 0;
    while i < values.len()
        invariant
            i <= values@.len(),
            parts@.len() == i,
            forall|j: int|
                0 <= j < i ==> (#[trigger] parts@[j])@ == crate::config_value::quoted_element(
                    values@[j]@,
                    values@.len(),
                ),
        decreases values@.len() - i,
    {
        parts.push(serialize_config_option_string(values[i].as_str(), values.len()));
        i = i + 1;
    }
    assert(views_of(parts@) =~= crate::config_value::quoted_elements(string_views(values@)));
    join_strings(&parts, ";")
}

/// The texts of booleans: `1` or `0`.
pub open spec fn bool_texts(values: Seq<bool>) -> Seq<Seq<char>> {
    Seq::new(values.len(), |i: int| if values[i] { "1"@ } else { "0"@ })
}

/// A boolean vector in a config block: `1` / `0` joined with `,`.
pub fn serialize_config_option_bools(values: &Vec<bool>) -> (r: String)
    ensures
        r@ == join_with(bool_texts(values@), ","@),
{
    let mut parts: Vec<String> = Vec::new();
    let mut i: usize = 0;
    while i < values.len()
        invariant
            i <= values@.len(),
            parts@.len() == i,
            forall|j: int| 0 <= j < i ==> (#[trigger] parts@[j])@ == bool_texts(values@)[j],
        decreases values@.len() - i,
    {
        parts.push(owned(if values[i] {
            "1"
        } else {
            "0"
        }));
        i = i + 1;
    }
    assert(views_of(parts@) =~= bool_texts(values@));
    join_strings(&parts, ",")
}

/// The decimal texts of integers.
pub open spec fn int_texts(values: Seq<i32>) -> Seq<Seq<char>> {
    Seq::new(values.len(), |i: int| int_text(values[i] as int))
}

/// An integer vector in a config block: decimal texts joined with `,`.
pub fn serialize_config_option_ints(values: &Vec<i32>) -> (r: String)
    ensures
        r@ == join_with(int_texts(values@), ","@),
{
    let mut parts: Vec<String> = Vec::new();
    let mut i: usize = 0;
    while i < values.len()
        invariant
            i <= values@.len(),
            parts@.len() == i,
            forall|j: int| 0 <= j < i ==> (#[trigger] parts@[j])@ == int_texts(values@)[j],
        decreases values@.len() - i,
    {
        parts.push(i64_text(values[i] as i64));
        i = i + 1;
    }
    assert(views_of(parts@) =~= int_texts(values@));
    join_strings(&parts, ",")
}

/// What `optional_string_vector_export` gives.
pub open spec fn string_vector_export_spec(value: Option<Json>, key: Seq<char>) -> Result<
    Option<Seq<char>>,
    Seq<char>,
> {
    match value {
        None => Ok(None),
        Some(Json::Array(items)) => match all_strings_of(items) {
            Some(s) => Ok(Some(string_vector_text(s))),
            None => Err(key + " must contain strings"@),
        },
        Some(_) => Err(key + " must be a string vector"@),
    }
}

/// A string vector option's text, when it is set.
pub fn optional_string_vector_export(value: Option<&JsonValue>, key: &str) -> (r: Result<
    Option<String>,
    SliceError,
>)
    ensures
        export_agrees(r, string_vector_export_spec(opt_model(value), key@)),
{
    proof {
        reveal_strlit(" must contain strings");
        reveal_strlit(" must be a string vector");
    }
    let given = match value {
        None => return Ok(None),
        Some(v) => v,
    };
    let items = match given.as_array() {
        Some(items) => items,
        None => return Err(invalid(key, " must be a string vector")),
    };
    let strings = match strings_of_items(items) {
        Some(v) => v,
        None => return Err(invalid(key, " must contain strings")),
    };
    Ok(Some(serialize_config_option_strings(&strings)))
}

/// The booleans of bool items, or `None` if one is not a boolean.
pub open spec fn all_bools_of(items: Seq<Json>) -> Option<Seq<bool>> {
    if forall|i: int| 0 <= i < items.len() ==> (#[trigger] items[i]) is Bool {
        Some(Seq::new(items.len(), |i: int| items[i]->Bool_0))
    } else {
        None
    }
}

/// The booleans of an array, or `None` if one is not a boolean.
fn bools_of_items(items: &Vec<JsonValue>) -> (r: Option<Vec<bool>>)
    ensures
        match all_bools_of(models(items@)) {
            Some(b) => r matches Some(v) && v@ == b,
            None => r is None,
        },
{
    let mut bools: Vec<bool> = Vec::new();
    let mut i: usize = 0;
    while i < items.len()
        invariant
            i <= items@.len(),
            bools@.len() == i,
            forall|j: int| 0 <= j < i ==> (#[trigger] models(items@)[j]) is Bool,
            forall|j: int| 0 <= j < i ==> (#[trigger] bools@[j]) == models(items@)[j]->Bool_0,
        decreases items@.len() - i,
    {
        assert(models(items@)[i as int] == items@[i as int].model());
        match items[i].as_bool() {
            Some(b) => bools.push(b),
            None => return None,
        }
        i = i + 1;
    }
    assert(bools@ =~= all_bools_of(models(items@))->Some_0);
    Some(bools)
}

/// What `optional_bool_vector_export` gives.
pub open spec fn bool_vector_export_spec(value: Option<Json>, key: Seq<char>) -> Result<
    Option<Seq<char>>,
    Seq<char>,
> {
    match value {
        None => Ok(None),
        Some(Json::Array(items)) => match all_bools_of(items) {
            Some(b) => Ok(Some(join_with(bool_texts(b), ","@))),
            None => Err(key + " must contain bools"@),
        },
        Some(_) => Err(key + " must be a bool vector"@),
    }
}

/// A boolean vector option's text, when it is set.
pub fn optional_bool_vector_export(value: Option<&JsonValue>, key: &str) -> (r: Result<
    Option<String>,
    SliceError,
>)
    ensures
        export_agrees(r, bool_vector_export_spec(opt_model(value), key@)),
{
    proof {
        reveal_strlit(" must contain bools");
        reveal_strlit(" must be a bool vector");
    }
    let given = match value {
        None => return Ok(None),
        Some(v) => v,
    };
    let items = match given.as_array() {
        Some(items) => items,
        None => return Err(invalid(key, " must be a bool vector")),
    };
    let bools = match bools_of_items(items) {
        Some(v) => v,
        None => return Err(invalid(key, " must contain bools")),
    };
    Ok(Some(serialize_config_option_bools(&bools)))
}

/// The `i32` values of integer items, or the error of the first item that
/// is not an integer or does not fit.
pub open spec fn int_items(items: Seq<Json>, key: Seq<char>) -> Result<Seq<i32>, Seq<char>>
    decreases items.len(),
{
    if items.len() == 0 {
        Ok(Seq::empty())
    } else {
        match int_items(items.drop_last(), key) {
            Err(m) => Err(m),
            Ok(v) => match json_as_i64(items.last()) {
                None => Err(key + " must contain integers"@),
                Some(n) => if i32::MIN <= n <= i32::MAX {
                    Ok(v.push(n as i32))
                } else {
                    Err(key + " must contain i32 integers"@)
                },
            },
        }
    }
}

/// Once the items of a prefix fail, all items fail the same way.
proof fn lemma_int_items_error(items: Seq<Json>, n: int, key: Seq<char>)
    requires
        0 <= n <= items.len(),
        int_items(items.take(n), key) is Err,
    ensures
        int_items(items, key) == int_items(items.take(n), key),
    decreases items.len() - n,
{
    if n < items.len() {
        assert(items.take(n + 1).drop_last() =~= items.take(n));
        lemma_int_items_error(items, n + 1, key);
    } else {
        assert(items.take(n) =~= items);
    }
}

/// The `i32` values of an integer array, or the error of the first item
/// that is not one.
fn parse_int_items(items: &Vec<JsonValue>, key: &str) -> (r: Result<Vec<i32>, SliceError>)
    ensures
        match int_items(models(items@), key@) {
            Ok(v) => r matches Ok(w) && w@ == v,
            Err(m) => r matches Err(e) && message_of(e) == m,
        },
{
    let ghost ms = models(items@);
    let mut out: Vec<i32> = Vec::new();
    let mut i: usize = 0;
    assert(ms.take(0) =~= Seq::<Json>::empty());
    while i < items.len()
        invariant
            i <= items@.len(),
            ms == models(items@),
            int_items(ms.take(i as int), key@) == Ok::<Seq<i32>, Seq<char>>(out@),
        decreases items@.len() - i,
    {
        proof {
            assert(ms.take(i + 1).drop_last() =~= ms.take(i as int));
            assert(ms[i as int] == items@[i as int].model());
        }
        match items[i].as_i64() {
            None => {
                proof {
                    reveal_strlit(" must contain integers");
                    lemma_int_items_error(ms, i + 1, key@);
                }
                return Err(invalid(key, " must contain integers"));
            },
            Some(n) => {
                if n < -2147483648 || n > 2147483647 {
                    proof {
                        reveal_strlit(" must contain i32 integers");
                        lemma_int_items_error(ms, i + 1, key@);
                    }
                    return Err(invalid(key, " must contain i32 integers"));
                }
                out.push(n as i32);
            },
        }
        i = i + 1;
    }
    assert(ms.take(items@.len() as int) =~= ms);
    Ok(out)
}

/// Whether every value lies in `[min, max]`.
pub open spec fn all_in_range(values: Seq<i32>, min: i32, max: i32) -> bool {
    forall|i: int| 0 <= i < values.len() ==> min <= #[trigger] values[i] <= max
}

/// Whether every value lies in `[min, max]`.
fn all_within(values: &Vec<i32>, min: i32, max: i32) -> (r: bool)
    ensures
        r == all_in_range(values@, min, max),
{
    let mut i: usize = 0;
    while i < values.len()
        invariant
            i <= values@.len(),
            forall|j: int| 0 <= j < i ==> min <= #[trigger] values@[j] <= max,
        decreases values@.len() - i,
    {
        if values[i] < min || values[i] > max {
            return false;
        }
        i = i + 1;
    }
    true
}

/// What `optional_int_vector_export_in_range` gives; without bounds it is
/// `optional_int_vector_export`.
pub open spec fn int_vector_export_spec(
    value: Option<Json>,
    key: Seq<char>,
    bounds: Option<(i32, i32)>,
) -> Result<Option<Seq<char>>, Seq<char>> {
    match value {
        None => Ok(None),
        Some(Json::Array(items)) => match int_items(items, key) {
            Err(m) => Err(m),
            Ok(v) => match bounds {
                Some((min, max)) => if all_in_range(v, min, max) {
                    Ok(Some(join_with(int_texts(v), ","@)))
                } else {
                    Err(key + " contains invalid value"@)
                },
                None => Ok(Some(join_with(int_texts(v), ","@))),
            },
        },
        Some(_) => Err(key + " must be an integer vector"@),
    }
}

/// An integer vector option's text, when it is set.
pub fn optional_int_vector_export(value: Option<&JsonValue>, key: &str) -> (r: Result<
    Option<String>,
    SliceError,
>)
    ensures
        export_agrees(r, int_vector_export_spec(opt_model(value), key@, None)),
{
    proof {
        reveal_strlit(" must be an integer vector");
    }
    let given = match value {
        None => return Ok(None),
        Some(v) => v,
    };
    let items = match given.as_array() {
        Some(items) => items,
        None => return Err(invalid(key, " must be an integer vector")),
    };
    match parse_int_items(items, key) {
        Ok(ints) => Ok(Some(serialize_config_option_ints(&ints))),
        Err(e) => Err(e),
    }
}

/// An integer vector option's text, when it is set, each value in
/// `[min, max]`.
pub fn optional_int_vector_export_in_range(
    value: Option<&JsonValue>,
    key: &str,
    min: i32,
    max: i32,
) -> (r: Result<Option<String>, SliceError>)
    ensures
        export_agrees(r, int_vector_export_spec(opt_model(value), key@, Some((min, max)))),
{
    proof {
        reveal_strlit(" must be an integer vector");
        reveal_strlit(" contains invalid value");
    }
    let given = match value {
        None => return Ok(None),
        Some(v) => v,
    };
    let items = match given.as_array() {
        Some(items) => items,
        None => return Err(invalid(key, " must be an integer vector")),
    };
    let ints = match parse_int_items(items, key) {
        Ok(ints) => ints,
        Err(e) => return Err(e),
    };
    if !all_within(&ints, min, max) {
        return Err(invalid(key, " contains invalid value"));
    }
    Ok(Some(serialize_config_option_ints(&ints)))
}

/// What `optional_scalar_bool_export` gives: `1` or `0`.
pub open spec fn scalar_bool_export_spec(value: Option<Json>, key: Seq<char>) -> Result<
    Option<Seq<char>>,
    Seq<char>,
> {
    match value {
        None => Ok(None),
        Some(j) => match json_as_bool(j) {
            Some(b) => Ok(Some(if b { "1"@ } else { "0"@ })),
            None => Err(key + " must be a boolean"@),
        },
    }
}

/// A scalar boolean option's text, when it is set.
pub fn optional_scalar_bool_export(value: Option<&JsonValue>, key: &str) -> (r: Result<
    Option<String>,
    SliceError,
>)
    ensures
        export_agrees(r, scalar_bool_export_spec(opt_model(value), key@)),
{
    proof {
        reveal_strlit(" must be a boolean");
    }
    match value {
        None => Ok(None),
        Some(v) => match v.as_bool() {
            Some(b) => Ok(Some(owned(if b {
                "1"
            } else {
                "0"
            }))),
            None => Err(invalid(key, " must be a boolean")),
        },
    }
}

/// What `optional_scalar_int_export_in_range` gives.
pub open spec fn scalar_int_export_spec(value: Option<Json>, key: Seq<char>, min: i32, max: i32) -> Result<
    Option<Seq<char>>,
    Seq<char>,
> {
    match value {
        None => Ok(None),
        Some(j) => match json_as_i64(j) {
            None => Err(key + " must be an integer"@),
            Some(n) => if !(i32::MIN <= n <= i32::MAX) {
                Err(key + " must be an i32 integer"@)
            } else if min <= n <= max {
                Ok(Some(int_text(n as int)))
            } else {
                Err(key + " contains invalid value"@)
            },
        },
    }
}

/// A scalar integer option's text, when it is set, in `[min, max]`.
pub fn optional_scalar_int_export_in_range(
    value: Option<&JsonValue>,
    key: &str,
    min: i32,
    max: i32,
) -> (r: Result<Option<String>, SliceError>)
    ensures
        export_agrees(r, scalar_int_export_spec(opt_model(value), key@, min, max)),
{
    proof {
        reveal_strlit(" must be an integer");
        reveal_strlit(" must be an i32 integer");
        reveal_strlit(" contains invalid value");
    }
    let given = match value {
        None => return Ok(None),
        Some(v) => v,
    };
    let n = match given.as_i64() {
        Some(n) => n,
        None => return Err(invalid(key, " must be an integer")),
    };
    if n < -2147483648 || n > 2147483647 {
        return Err(invalid(key, " must be an i32 integer"));
    }
    let number = n as i32;
    if min <= number && number <= max {
        Ok(Some(i64_text(n)))
    } else {
        Err(invalid(key, " contains invalid value"))
    }
}

/// What `optional_wipe_tower_type_export` gives.
pub open spec fn wipe_tower_type_export_spec(value: Option<Json>) -> Result<Option<Seq<char>>, Seq<char>> {
    match value {
        None => Ok(None),
        Some(Json::Str(s)) => if s == "type1"@ || s == "type2"@ {
            Ok(Some(s))
        } else {
            Err("wipe_tower_type contains invalid value"@)
        },
        Some(_) => Err("wipe_tower_type must be an enum string"@),
    }
}

/// The wipe tower type's text, when it is set: `type1` or `type2`.
pub fn optional_wipe_tower_type_export(value: Option<&JsonValue>) -> (r: Result<
    Option<String>,
    SliceError,
>)
    ensures
        export_agrees(r, wipe_tower_type_export_spec(opt_model(value))),
{
    match value {
        None => Ok(None),
        Some(v) => match v.as_str() {
            None => Err(invalid_message("wipe_tower_type must be an enum string")),
            Some(s) => if str_eq(s, "type1") || str_eq(s, "type2") {
                Ok(Some(owned(s)))
            } else {
                Err(invalid_message("wipe_tower_type contains invalid value"))
            },
        },
    }
}

/// What `optional_wipe_tower_wall_type_export` gives.
pub open spec fn wipe_tower_wall_type_export_spec(value: Option<Json>) -> Result<
    Option<Seq<char>>,
    Seq<char>,
> {
    match value {
        None => Ok(None),
        Some(Json::Str(s)) => if s == "rectangle"@ || s == "cone"@ || s == "rib"@ {
            Ok(Some(s))
        } else {
            Err("wipe_tower_wall_type contains invalid value"@)
        },
        Some(_) => Err("wipe_tower_wall_type must be an enum string"@),
    }
}

/// The wipe tower wall type's text, when it is set: `rectangle`, `cone`
/// or `rib`.
pub fn optional_wipe_tower_wall_type_export(value: Option<&JsonValue>) -> (r: Result<
    Option<String>,
    SliceError,
>)
    ensures
        export_agrees(r, wipe_tower_wall_type_export_spec(opt_model(value))),
{
    match value {
        None => Ok(None),
        Some(v) => match v.as_str() {
            None => Err(invalid_message("wipe_tower_wall_type must be an enum string")),
            Some(s) => if str_eq(s, "rectangle") || str_eq(s, "cone") || str_eq(s, "rib") {
                Ok(Some(owned(s)))
            } else {
                Err(invalid_message("wipe_tower_wall_type contains invalid value"))
            },
        },
    }
}

impl SliceOptions {
    /// The filament colours' text, when they are set.
    pub fn filament_colour_config_export(&self) -> (r: Result<Option<String>, SliceError>)
        ensures
            export_agrees(
                r,
                string_vector_export_spec(opt_get(self@, "filament_colour"@), "filament_colour"@),
            ),
    {
        optional_string_vector_export(self.values().get("filament_colour"), "filament_colour")
    }

    /// The extruder colours' text: the filament colours, when extruder
    /// colours are set.
    pub fn extruder_colour_config_export(&self) -> (r: Result<Option<String>, SliceError>)
        ensures
            export_agrees(
                r,
                if self@.contains_key("extruder_colour"@) {
                    string_vector_export_spec(
                        opt_get(self@, "filament_colour"@),
                        "filament_colour"@,
                    )
                } else {
                    Ok(None)
                },
            ),
    {
        if !self.values().contains_key("extruder_colour") {
            return Ok(None);
        }
        self.filament_colour_config_export()
    }

    /// The default filament colours' text, when they are set.
    pub fn default_filament_colour_config_export(&self) -> (r: Result<Option<String>, SliceError>)
        ensures
            export_agrees(
                r,
                string_vector_export_spec(
                    opt_get(self@, "default_filament_colour"@),
                    "default_filament_colour"@,
                ),
            ),
    {
        optional_string_vector_export(
            self.values().get("default_filament_colour"),
            "default_filament_colour",
        )
    }
}

/// How one exported field gets its text.
#[derive(Clone, Copy, Debug, PartialEq, Eq, Structural)]
pub enum ExportRule {
    /// An integer vector, each value in the bounds.
    IntVectorInRange(i32, i32),
    /// An integer vector.
    IntVector,
    /// A boolean vector.
    BoolVector,
    /// A string vector.
    StringVector,
    /// A scalar boolean.
    ScalarBool,
    /// A scalar integer in the bounds.
    ScalarIntInRange(i32, i32),
    /// The wipe tower type.
    WipeTowerType,
    /// The wipe tower wall type.
    WipeTowerWallType,
    /// The filament colours, when extruder colours are set.
    ExtruderColour,
    /// Worked out by the caller: float options and the small area flow
    /// compensation model.
    Given,
}

/// The number of exported fields.
pub open spec fn export_field_count() -> nat {
    65
}

/// The fields of the filament config exports, in order: name, option key
/// and how the value is exported.
pub open spec fn export_field(i: int) -> (Seq<char>, Seq<char>, ExportRule) {
    if i == 0 {
        ("filament_adhesiveness_category"@, "filament_adhesiveness_category"@, ExportRule::IntVectorInRange(0, 2147483647))
    } else if i == 1 {
        ("cooling_tube_retraction"@, "cooling_tube_retraction"@, ExportRule::Given)
    } else if i == 2 {
        ("cooling_tube_length"@, "cooling_tube_length"@, ExportRule::Given)
    } else if i == 3 {
        ("high_current_on_filament_swap"@, "high_current_on_filament_swap"@, ExportRule::ScalarBool)
    } else if i == 4 {
        ("parking_pos_retraction"@, "parking_pos_retraction"@, ExportRule::Given)
    } else if i == 5 {
        ("extra_loading_move"@, "extra_loading_move"@, ExportRule::Given)
    } else if i == 6 {
        ("machine_load_filament_time"@, "machine_load_filament_time"@, ExportRule::Given)
    } else if i == 7 {
        ("machine_tool_change_time"@, "machine_tool_change_time"@, ExportRule::Given)
    } else if i == 8 {
        ("machine_unload_filament_time"@, "machine_unload_filament_time"@, ExportRule::Given)
    } else if i == 9 {
        ("filament_loading_speed"@, "filament_loading_speed"@, ExportRule::Given)
    } else if i == 10 {
        ("filament_loading_speed_start"@, "filament_loading_speed_start"@, ExportRule::Given)
    } else if i == 11 {
        ("filament_unloading_speed"@, "filament_unloading_speed"@, ExportRule::Given)
    } else if i == 12 {
        ("filament_unloading_speed_start"@, "filament_unloading_speed_start"@, ExportRule::Given)
    } else if i == 13 {
        ("filament_toolchange_delay"@, "filament_toolchange_delay"@, ExportRule::Given)
    } else if i == 14 {
        ("filament_cooling_moves"@, "filament_cooling_moves"@, ExportRule::IntVectorInRange(0, 20))
    } else if i == 15 {
        ("filament_cooling_initial_speed"@, "filament_cooling_initial_speed"@, ExportRule::Given)
    } else if i == 16 {
        ("filament_minimal_purge_on_wipe_tower"@, "filament_minimal_purge_on_wipe_tower"@, ExportRule::Given)
    } else if i == 17 {
        ("filament_cooling_before_tower"@, "filament_cooling_before_tower"@, ExportRule::Given)
    } else if i == 18 {
        ("filament_tower_interface_pre_extrusion_dist"@, "filament_tower_interface_pre_extrusion_dist"@, ExportRule::Given)
    } else if i == 19 {
        ("filament_tower_interface_pre_extrusion_length"@, "filament_tower_interface_pre_extrusion_length"@, ExportRule::Given)
    } else if i == 20 {
        ("filament_tower_ironing_area"@, "filament_tower_ironing_area"@, ExportRule::Given)
    } else if i == 21 {
        ("filament_tower_interface_purge_volume"@, "filament_tower_interface_purge_volume"@, ExportRule::Given)
    } else if i == 22 {
        ("filament_tower_interface_print_temp"@, "filament_tower_interface_print_temp"@, ExportRule::IntVectorInRange(-1i32, 2147483647))
    } else if i == 23 {
        ("filament_cooling_final_speed"@, "filament_cooling_final_speed"@, ExportRule::Given)
    } else if i == 24 {
        ("filament_ramming_parameters"@, "filament_ramming_parameters"@, ExportRule::StringVector)
    } else if i == 25 {
        ("filament_multitool_ramming"@, "filament_multitool_ramming"@, ExportRule::BoolVector)
    } else if i == 26 {
        ("filament_multitool_ramming_volume"@, "filament_multitool_ramming_volume"@, ExportRule::Given)
    } else if i == 27 {
        ("filament_multitool_ramming_flow"@, "filament_multitool_ramming_flow"@, ExportRule::Given)
    } else if i == 28 {
        ("filament_stamping_loading_speed"@, "filament_stamping_loading_speed"@, ExportRule::Given)
    } else if i == 29 {
        ("filament_stamping_distance"@, "filament_stamping_distance"@, ExportRule::Given)
    } else if i == 30 {
        ("wipe_tower_type"@, "wipe_tower_type"@, ExportRule::WipeTowerType)
    } else if i == 31 {
        ("purge_in_prime_tower"@, "purge_in_prime_tower"@, ExportRule::ScalarBool)
    } else if i == 32 {
        ("enable_filament_ramming"@, "enable_filament_ramming"@, ExportRule::ScalarBool)
    } else if i == 33 {
        ("tool_change_on_wipe_tower"@, "tool_change_on_wipe_tower"@, ExportRule::ScalarBool)
    } else if i == 34 {
        ("wipe_tower_no_sparse_layers"@, "wipe_tower_no_sparse_layers"@, ExportRule::ScalarBool)
    } else if i == 35 {
        ("support_multi_bed_types"@, "support_multi_bed_types"@, ExportRule::ScalarBool)
    } else if i == 36 {
        ("wipe_tower_x"@, "wipe_tower_x"@, ExportRule::Given)
    } else if i == 37 {
        ("wipe_tower_y"@, "wipe_tower_y"@, ExportRule::Given)
    } else if i == 38 {
        ("prime_tower_width"@, "prime_tower_width"@, ExportRule::Given)
    } else if i == 39 {
        ("wipe_tower_rotation_angle"@, "wipe_tower_rotation_angle"@, ExportRule::Given)
    } else if i == 40 {
        ("prime_tower_brim_width"@, "prime_tower_brim_width"@, ExportRule::Given)
    } else if i == 41 {
        ("wipe_tower_bridging"@, "wipe_tower_bridging"@, ExportRule::Given)
    } else if i == 42 {
        ("wipe_tower_extra_flow"@, "wipe_tower_extra_flow"@, ExportRule::Given)
    } else if i == 43 {
        ("wipe_tower_cone_angle"@, "wipe_tower_cone_angle"@, ExportRule::Given)
    } else if i == 44 {
        ("wipe_tower_extra_spacing"@, "wipe_tower_extra_spacing"@, ExportRule::Given)
    } else if i == 45 {
        ("wipe_tower_max_purge_speed"@, "wipe_tower_max_purge_speed"@, ExportRule::Given)
    } else if i == 46 {
        ("wipe_tower_wall_type"@, "wipe_tower_wall_type"@, ExportRule::WipeTowerWallType)
    } else if i == 47 {
        ("wipe_tower_extra_rib_length"@, "wipe_tower_extra_rib_length"@, ExportRule::Given)
    } else if i == 48 {
        ("wipe_tower_rib_width"@, "wipe_tower_rib_width"@, ExportRule::Given)
    } else if i == 49 {
        ("wipe_tower_fillet_wall"@, "wipe_tower_fillet_wall"@, ExportRule::ScalarBool)
    } else if i == 50 {
        ("wipe_tower_filament"@, "wipe_tower_filament"@, ExportRule::ScalarIntInRange(0, 2147483647))
    } else if i == 51 {
        ("small_area_infill_flow_compensation_model"@, "small_area_infill_flow_compensation_model"@, ExportRule::Given)
    } else if i == 52 {
        ("filament_colour"@, "filament_colour"@, ExportRule::StringVector)
    } else if i == 53 {
        ("extruder_colour"@, "extruder_colour"@, ExportRule::ExtruderColour)
    } else if i == 54 {
        ("filament_multi_colour"@, "filament_multi_colour"@, ExportRule::StringVector)
    } else if i == 55 {
        ("filament_colour_new"@, "filament_colour_new"@, ExportRule::Given)
    } else if i == 56 {
        ("filament_colour_type"@, "filament_colour_type"@, ExportRule::StringVector)
    } else if i == 57 {
        ("default_filament_colour"@, "default_filament_colour"@, ExportRule::StringVector)
    } else if i == 58 {
        ("filament_ids"@, "filament_ids"@, ExportRule::StringVector)
    } else if i == 59 {
        ("filament_soluble"@, "filament_soluble"@, ExportRule::BoolVector)
    } else if i == 60 {
        ("filament_is_support"@, "filament_is_support"@, ExportRule::BoolVector)
    } else if i == 61 {
        ("filament_printable"@, "filament_printable"@, ExportRule::IntVector)
    } else if i == 62 {
        ("filament_change_length"@, "filament_change_length"@, ExportRule::Given)
    } else if i == 63 {
        ("required_nozzle_hrc"@, "required_nozzle_HRC"@, ExportRule::IntVectorInRange(0, 500))
    } else if i == 64 {
        ("filament_map"@, "filament_map"@, ExportRule::IntVector)
    } else {
        (Seq::empty(), Seq::empty(), ExportRule::Given)
    }
}

/// The field at `i` of the filament config exports.
fn export_field_at(i: usize) -> (r: (&'static str, &'static str, ExportRule))
    requires
        i < 65,
    ensures
        (r.0@, r.1@, r.2) == export_field(i as int),
{
    if i == 0 {
        ("filament_adhesiveness_category", "filament_adhesiveness_category", ExportRule::IntVectorInRange(0, 2147483647))
    } else if i == 1 {
        ("cooling_tube_retraction", "cooling_tube_retraction", ExportRule::Given)
    } else if i == 2 {
        ("cooling_tube_length", "cooling_tube_length", ExportRule::Given)
    } else if i == 3 {
        ("high_current_on_filament_swap", "high_current_on_filament_swap", ExportRule::ScalarBool)
    } else if i == 4 {
        ("parking_pos_retraction", "parking_pos_retraction", ExportRule::Given)
    } else if i == 5 {
        ("extra_loading_move", "extra_loading_move", ExportRule::Given)
    } else if i == 6 {
        ("machine_load_filament_time", "machine_load_filament_time", ExportRule::Given)
    } else if i == 7 {
        ("machine_tool_change_time", "machine_tool_change_time", ExportRule::Given)
    } else if i == 8 {
        ("machine_unload_filament_time", "machine_unload_filament_time", ExportRule::Given)
    } else if i == 9 {
        ("filament_loading_speed", "filament_loading_speed", ExportRule::Given)
    } else if i == 10 {
        ("filament_loading_speed_start", "filament_loading_speed_start", ExportRule::Given)
    } else if i == 11 {
        ("filament_unloading_speed", "filament_unloading_speed", ExportRule::Given)
    } else if i == 12 {
        ("filament_unloading_speed_start", "filament_unloading_speed_start", ExportRule::Given)
    } else if i == 13 {
        ("filament_toolchange_delay", "filament_toolchange_delay", ExportRule::Given)
    } else if i == 14 {
        ("filament_cooling_moves", "filament_cooling_moves", ExportRule::IntVectorInRange(0, 20))
    } else if i == 15 {
        ("filament_cooling_initial_speed", "filament_cooling_initial_speed", ExportRule::Given)
    } else if i == 16 {
        ("filament_minimal_purge_on_wipe_tower", "filament_minimal_purge_on_wipe_tower", ExportRule::Given)
    } else if i == 17 {
        ("filament_cooling_before_tower", "filament_cooling_before_tower", ExportRule::Given)
    } else if i == 18 {
        ("filament_tower_interface_pre_extrusion_dist", "filament_tower_interface_pre_extrusion_dist", ExportRule::Given)
    } else if i == 19 {
        ("filament_tower_interface_pre_extrusion_length", "filament_tower_interface_pre_extrusion_length", ExportRule::Given)
    } else if i == 20 {
        ("filament_tower_ironing_area", "filament_tower_ironing_area", ExportRule::Given)
    } else if i == 21 {
        ("filament_tower_interface_purge_volume", "filament_tower_interface_purge_volume", ExportRule::Given)
    } else if i == 22 {
        ("filament_tower_interface_print_temp", "filament_tower_interface_print_temp", ExportRule::IntVectorInRange(-1i32, 2147483647))
    } else if i == 23 {
        ("filament_cooling_final_speed", "filament_cooling_final_speed", ExportRule::Given)
    } else if i == 24 {
        ("filament_ramming_parameters", "filament_ramming_parameters", ExportRule::StringVector)
    } else if i == 25 {
        ("filament_multitool_ramming", "filament_multitool_ramming", ExportRule::BoolVector)
    } else if i == 26 {
        ("filament_multitool_ramming_volume", "filament_multitool_ramming_volume", ExportRule::Given)
    } else if i == 27 {
        ("filament_multitool_ramming_flow", "filament_multitool_ramming_flow", ExportRule::Given)
    } else if i == 28 {
        ("filament_stamping_loading_speed", "filament_stamping_loading_speed", ExportRule::Given)
    } else if i == 29 {
        ("filament_stamping_distance", "filament_stamping_distance", ExportRule::Given)
    } else if i == 30 {
        ("wipe_tower_type", "wipe_tower_type", ExportRule::WipeTowerType)
    } else if i == 31 {
        ("purge_in_prime_tower", "purge_in_prime_tower", ExportRule::ScalarBool)
    } else if i == 32 {
        ("enable_filament_ramming", "enable_filament_ramming", ExportRule::ScalarBool)
    } else if i == 33 {
        ("tool_change_on_wipe_tower", "tool_change_on_wipe_tower", ExportRule::ScalarBool)
    } else if i == 34 {
        ("wipe_tower_no_sparse_layers", "wipe_tower_no_sparse_layers", ExportRule::ScalarBool)
    } else if i == 35 {
        ("support_multi_bed_types", "support_multi_bed_types", ExportRule::ScalarBool)
    } else if i == 36 {
        ("wipe_tower_x", "wipe_tower_x", ExportRule::Given)
    } else if i == 37 {
        ("wipe_tower_y", "wipe_tower_y", ExportRule::Given)
    } else if i == 38 {
        ("prime_tower_width", "prime_tower_width", ExportRule::Given)
    } else if i == 39 {
        ("wipe_tower_rotation_angle", "wipe_tower_rotation_angle", ExportRule::Given)
    } else if i == 40 {
        ("prime_tower_brim_width", "prime_tower_brim_width", ExportRule::Given)
    } else if i == 41 {
        ("wipe_tower_bridging", "wipe_tower_bridging", ExportRule::Given)
    } else if i == 42 {
        ("wipe_tower_extra_flow", "wipe_tower_extra_flow", ExportRule::Given)
    } else if i == 43 {
        ("wipe_tower_cone_angle", "wipe_tower_cone_angle", ExportRule::Given)
    } else if i == 44 {
        ("wipe_tower_extra_spacing", "wipe_tower_extra_spacing", ExportRule::Given)
    } else if i == 45 {
        ("wipe_tower_max_purge_speed", "wipe_tower_max_purge_speed", ExportRule::Given)
    } else if i == 46 {
        ("wipe_tower_wall_type", "wipe_tower_wall_type", ExportRule::WipeTowerWallType)
    } else if i == 47 {
        ("wipe_tower_extra_rib_length", "wipe_tower_extra_rib_length", ExportRule::Given)
    } else if i == 48 {
        ("wipe_tower_rib_width", "wipe_tower_rib_width", ExportRule::Given)
    } else if i == 49 {
        ("wipe_tower_fillet_wall", "wipe_tower_fillet_wall", ExportRule::ScalarBool)
    } else if i == 50 {
        ("wipe_tower_filament", "wipe_tower_filament", ExportRule::ScalarIntInRange(0, 2147483647))
    } else if i == 51 {
        ("small_area_infill_flow_compensation_model", "small_area_infill_flow_compensation_model", ExportRule::Given)
    } else if i == 52 {
        ("filament_colour", "filament_colour", ExportRule::StringVector)
    } else if i == 53 {
        ("extruder_colour", "extruder_colour", ExportRule::ExtruderColour)
    } else if i == 54 {
        ("filament_multi_colour", "filament_multi_colour", ExportRule::StringVector)
    } else if i == 55 {
        ("filament_colour_new", "filament_colour_new", ExportRule::Given)
    } else if i == 56 {
        ("filament_colour_type", "filament_colour_type", ExportRule::StringVector)
    } else if i == 57 {
        ("default_filament_colour", "default_filament_colour", ExportRule::StringVector)
    } else if i == 58 {
        ("filament_ids", "filament_ids", ExportRule::StringVector)
    } else if i == 59 {
        ("filament_soluble", "filament_soluble", ExportRule::BoolVector)
    } else if i == 60 {
        ("filament_is_support", "filament_is_support", ExportRule::BoolVector)
    } else if i == 61 {
        ("filament_printable", "filament_printable", ExportRule::IntVector)
    } else if i == 62 {
        ("filament_change_length", "filament_change_length", ExportRule::Given)
    } else if i == 63 {
        ("required_nozzle_hrc", "required_nozzle_HRC", ExportRule::IntVectorInRange(0, 500))
    } else if i == 64 {
        ("filament_map", "filament_map", ExportRule::IntVector)
    } else {
        ("", "", ExportRule::Given)
    }
}

/// A result with its error as message text.
pub open spec fn export_model(r: Result<Option<String>, SliceError>) -> Result<Option<Seq<char>>, Seq<char>> {
    match r {
        Ok(None) => Ok(None),
        Ok(Some(t)) => Ok(Some(t@)),
        Err(e) => Err(message_of(e)),
    }
}

/// The results the caller worked out, by field name.
pub open spec fn given_models(given: Seq<(String, Result<Option<String>, SliceError>)>) -> Seq<
    (Seq<char>, Result<Option<Seq<char>>, Seq<char>>),
> {
    given.map_values(
        |g: (String, Result<Option<String>, SliceError>)| (g.0@, export_model(g.1)),
    )
}

/// The caller's result for field `name`: the first one given, nothing when
/// none is.
pub open spec fn given_for(
    given: Seq<(Seq<char>, Result<Option<Seq<char>>, Seq<char>>)>,
    name: Seq<char>,
) -> Result<Option<Seq<char>>, Seq<char>>
    decreases given.len(),
{
    if given.len() == 0 {
        Ok(None)
    } else if given[0].0 == name {
        given[0].1
    } else {
        given_for(given.drop_first(), name)
    }
}

/// The result of one field.
pub open spec fn field_result(
    values: Map<Seq<char>, Json>,
    given: Seq<(Seq<char>, Result<Option<Seq<char>>, Seq<char>>)>,
    i: int,
) -> Result<Option<Seq<char>>, Seq<char>> {
    let (name, key, rule) = export_field(i);
    let value = opt_get(values, key);
    match rule {
        ExportRule::IntVectorInRange(min, max) => int_vector_export_spec(value, key, Some((min, max))),
        ExportRule::IntVector => int_vector_export_spec(value, key, None),
        ExportRule::BoolVector => bool_vector_export_spec(value, key),
        ExportRule::StringVector => string_vector_export_spec(value, key),
        ExportRule::ScalarBool => scalar_bool_export_spec(value, key),
        ExportRule::ScalarIntInRange(min, max) => scalar_int_export_spec(value, key, min, max),
        ExportRule::WipeTowerType => wipe_tower_type_export_spec(value),
        ExportRule::WipeTowerWallType => wipe_tower_wall_type_export_spec(value),
        ExportRule::ExtruderColour => if values.contains_key("extruder_colour"@) {
            string_vector_export_spec(opt_get(values, "filament_colour"@), "filament_colour"@)
        } else {
            Ok(None)
        },
        ExportRule::Given => given_for(given, name),
    }
}

/// The fields before `n`, each with its name, or the first error.
pub open spec fn exports_upto(
    values: Map<Seq<char>, Json>,
    given: Seq<(Seq<char>, Result<Option<Seq<char>>, Seq<char>>)>,
    n: nat,
) -> Result<Seq<(Seq<char>, Option<Seq<char>>)>, Seq<char>>
    decreases n,
{
    if n == 0 {
        Ok(Seq::empty())
    } else {
        match exports_upto(values, given, (n - 1) as nat) {
            Err(m) => Err(m),
            Ok(s) => match field_result(values, given, n - 1) {
                Err(m) => Err(m),
                Ok(v) => Ok(s.push((export_field(n - 1).0, v))),
            },
        }
    }
}

/// Once the fields before `n` fail, all fields fail the same way.
proof fn lemma_exports_error(
    values: Map<Seq<char>, Json>,
    given: Seq<(Seq<char>, Result<Option<Seq<char>>, Seq<char>>)>,
    n: nat,
)
    requires
        n <= export_field_count(),
        exports_upto(values, given, n) is Err,
    ensures
        exports_upto(values, given, export_field_count()) == exports_upto(values, given, n),
    decreases export_field_count() - n,
{
    if n < export_field_count() {
        lemma_exports_error(values, given, n + 1);
    }
}

/// A copy of an export result.
fn copy_result(r: &Result<Option<String>, SliceError>) -> (c: Result<Option<String>, SliceError>)
    ensures
        export_model(c) == export_model(*r),
{
    match r {
        Ok(None) => Ok(None),
        Ok(Some(t)) => Ok(Some(owned(t.as_str()))),
        Err(SliceError::InvalidInput(m)) => Err(invalid_message(m.as_str())),
    }
}

/// The caller's result for field `name`.
fn given_result(given: &Vec<(String, Result<Option<String>, SliceError>)>, name: &str) -> (r: Result<
    Option<String>,
    SliceError,
>)
    ensures
        export_model(r) == given_for(given_models(given@), name@),
{
    let ghost gm = given_models(given@);
    let mut i: usize = 0;
    assert(gm.skip(0) =~= gm);
    while i < given.len()
        invariant
            i <= given@.len(),
            gm == given_models(given@),
            given_for(gm, name@) == given_for(gm.skip(i as int), name@),
        decreases given@.len() - i,
    {
        assert(gm.skip(i as int)[0] == gm[i as int]);
        if str_eq(given[i].0.as_str(), name) {
            return copy_result(&given[i].1);
        }
        assert(gm.skip(i as int).drop_first() =~= gm.skip(i + 1));
        i = i + 1;
    }
    Ok(None)
}

/// The exported fields, by name, in order.
#[derive(Debug)]
pub struct FilamentConfigExports {
    pub fields: Vec<(String, Option<String>)>,
}

/// The models of exported fields.
pub open spec fn export_fields_model(fields: Seq<(String, Option<String>)>) -> Seq<
    (Seq<char>, Option<Seq<char>>),
> {
    fields.map_values(
        |f: (String, Option<String>)|
            (
                f.0@,
                match f.1 {
                    Some(t) => Some(t@),
                    None => None,
                },
            ),
    )
}

impl FilamentConfigExports {
    /// The text of the field `name`, if it is exported.
    pub fn get(&self, name: &str) -> (r: Option<&String>)
        ensures
            match r {
                Some(t) => exists|i: int|
                    0 <= i < self.fields@.len() && self.fields@[i].0@ == name@ && self.fields@[i].1
                        == Some(*t),
                None => forall|i: int|
                    0 <= i < self.fields@.len() ==> (#[trigger] self.fields@[i]).0@ != name@
                        || self.fields@[i].1 is None,
            },
    {
        let mut i: usize = 0;
        while i < self.fields.len()
            invariant
                i <= self.fields@.len(),
                forall|j: int|
                    0 <= j < i ==> (#[trigger] self.fields@[j]).0@ != name@ || self.fields@[j].1
                        is None,
            decreases self.fields@.len() - i,
        {
            if str_eq(self.fields[i].0.as_str(), name) {
                match &self.fields[i].1 {
                    Some(t) => return Some(t),
                    None => {},
                }
            }
            i = i + 1;
        }
        None
    }
}

impl SliceOptions {
    /// One exported field's result.
    fn export_field_result(
        &self,
        given: &Vec<(String, Result<Option<String>, SliceError>)>,
        i: usize,
    ) -> (r: Result<Option<String>, SliceError>)
        requires
            i < export_field_count(),
        ensures
            export_model(r) == field_result(self@, given_models(given@), i as int),
    {
        let (name, key, rule) = export_field_at(i);
        let value = self.values().get(key);
        let r = match rule {
            ExportRule::IntVectorInRange(min, max) => optional_int_vector_export_in_range(
                value,
                key,
                min,
                max,
            ),
            ExportRule::IntVector => optional_int_vector_export(value, key),
            ExportRule::BoolVector => optional_bool_vector_export(value, key),
            ExportRule::StringVector => optional_string_vector_export(value, key),
            ExportRule::ScalarBool => optional_scalar_bool_export(value, key),
            ExportRule::ScalarIntInRange(min, max) => optional_scalar_int_export_in_range(
                value,
                key,
                min,
                max,
            ),
            ExportRule::WipeTowerType => optional_wipe_tower_type_export(value),
            ExportRule::WipeTowerWallType => optional_wipe_tower_wall_type_export(value),
            ExportRule::ExtruderColour => self.extruder_colour_config_export(),
            ExportRule::Given => given_result(given, name),
        };
        r
    }

    /// The config block text of the filament and wipe tower options, field
    /// by field in order; the first error stops. `given` holds, by field
    /// name, the results that take float arithmetic (and the small area
    /// flow compensation model), which the caller works out; a field with
    /// no given result is not exported.
    pub fn filament_config_exports(
        &self,
        given: &Vec<(String, Result<Option<String>, SliceError>)>,
    ) -> (r: Result<FilamentConfigExports, SliceError>)
        ensures
            match exports_upto(self@, given_models(given@), export_field_count()) {
                Ok(s) => r matches Ok(e) && export_fields_model(e.fields@) == s,
                Err(m) => r matches Err(e) && message_of(e) == m,
            },
    {
        let ghost gm = given_models(given@);
        let mut fields: Vec<(String, Option<String>)> = Vec::new();
        let mut i: usize = 0;
        assert(export_fields_model(fields@) =~= Seq::<(Seq<char>, Option<Seq<char>>)>::empty());
        while i < 65
            invariant
                i <= 65,
                gm == given_models(given@),
                exports_upto(self@, gm, i as nat) == Ok::<
                    Seq<(Seq<char>, Option<Seq<char>>)>,
                    Seq<char>,
                >(export_fields_model(fields@)),
            decreases 65 - i,
        {
            let (name, _, _) = export_field_at(i);
            match self.export_field_result(given, i) {
                Err(e) => {
                    proof {
                        lemma_exports_error(self@, gm, (i + 1) as nat);
                    }
                    return Err(e);
                },
                Ok(v) => {
                    let ghost before = export_fields_model(fields@);
                    let entry = (owned(name), v);
                    fields.push(entry);
                    assert(export_fields_model(fields@) =~= before.push(
                        (
                            entry.0@,
                            match entry.1 {
                                Some(t) => Some(t@),
                                None => None,
                            },
                        ),
                    ));
                },
            }
            i = i + 1;
        }
        Ok(FilamentConfigExports { fields })
    }
}

} // verus!
