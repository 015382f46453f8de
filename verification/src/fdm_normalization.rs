//! The normalization of FDM options before slicing: the legacy `extruder`
//! option, the solid infill filament, spiral vase mode, and the prime tower
//! rules.
use vstd::prelude::*;
use crate::error::{SliceError, invalid, invalid_message, message_of};
use crate::json::{Json, JsonNumber, JsonValue, json_as_i64, int_json, models};
use crate::slice_options::{SliceOptions, agrees};
use crate::extruder_index::opt_get;
use crate::filament_override::opt_model;
use crate::text::{owned, parse_i64, parse_i64_text, str_eq};

verus! {

/// What `parse_bool` gives.
pub open spec fn parse_bool_spec(key: Seq<char>, j: Json) -> Result<bool, Seq<char>> {
    match j {
        Json::Bool(b) => Ok(b),
        _ => Err(key + " must be a boolean"@),
    }
}

/// A boolean option value.
pub fn parse_bool(key: &str, value: &JsonValue) -> (r: Result<bool, SliceError>)
    ensures
        agrees(r, parse_bool_spec(key@, value.model())),
{
    proof {
        reveal_strlit(" must be a boolean");
    }
    match value {
        JsonValue::Bool(b) => Ok(*b),
        _ => Err(invalid(key, " must be a boolean")),
    }
}

/// What `parse_non_negative_integer` gives: a JSON integer or text that
/// reads as one, not below zero.
pub open spec fn non_negative_integer_spec(key: Seq<char>, j: Json) -> Result<i64, Seq<char>> {
    let parsed = match j {
        Json::PosInt(_) | Json::NegInt(_) | Json::Float(_) => json_as_i64(j),
        Json::Str(s) => parse_i64_text(s),
        _ => None,
    };
    match parsed {
        None => Err(key + " must be an integer"@),
        Some(n) => if n >= 0 {
            Ok(n)
        } else {
            Err(key + " must be a non-negative integer"@)
        },
    }
}

/// A non-negative integer option value.
pub fn parse_non_negative_integer(key: &str, value: &JsonValue) -> (r: Result<i64, SliceError>)
    ensures
        agrees(r, non_negative_integer_spec(key@, value.model())),
{
    proof {
        reveal_strlit(" must be an integer");
        reveal_strlit(" must be a non-negative integer");
    }
    let parsed = match value {
        JsonValue::Number(_) => value.as_i64(),
        JsonValue::String(text) => parse_i64(text.as_str()),
        _ => None,
    };
    match parsed {
        None => Err(invalid(key, " must be an integer")),
        Some(n) => if n >= 0 {
            Ok(n)
        } else {
            Err(invalid(key, " must be a non-negative integer"))
        },
    }
}

/// What `parse_print_sequence` gives: `by layer` when unset.
pub open spec fn print_sequence_spec(j: Option<Json>) -> Result<Seq<char>, Seq<char>> {
    match j {
        None => Ok("by layer"@),
        Some(Json::Str(s)) => if s == "by layer"@ || s == "by object"@ {
            Ok(s)
        } else {
            Err("print_sequence must be a supported Orca print sequence"@)
        },
        Some(_) => Err("print_sequence must be a supported Orca print sequence"@),
    }
}

/// The print sequence: `by layer` or `by object`.
pub fn parse_print_sequence(value: Option<&JsonValue>) -> (r: Result<&'static str, SliceError>)
    ensures
        match print_sequence_spec(opt_model(value)) {
            Ok(s) => r matches Ok(t) && t@ == s,
            Err(m) => r matches Err(e) && message_of(e) == m,
        },
{
    let error = "print_sequence must be a supported Orca print sequence";
    match value {
        None => Ok("by layer"),
        Some(v) => match v {
            JsonValue::String(s) => if str_eq(s.as_str(), "by layer") {
                Ok("by layer")
            } else if str_eq(s.as_str(), "by object") {
                Ok("by object")
            } else {
                Err(invalid_message(error))
            },
            _ => Err(invalid_message(error)),
        },
    }
}

/// What `parse_timelapse_type` gives: `0` or `1`, nothing when unset.
pub open spec fn timelapse_type_spec(j: Option<Json>) -> Result<Option<Seq<char>>, Seq<char>> {
    match j {
        None => Ok(None),
        Some(Json::Str(s)) => if s == "0"@ || s == "1"@ {
            Ok(Some(s))
        } else {
            Err("timelapse_type must be a supported Orca timelapse type"@)
        },
        Some(_) => Err("timelapse_type must be a supported Orca timelapse type"@),
    }
}

/// The timelapse type: `0` or `1`.
pub fn parse_timelapse_type(value: Option<&JsonValue>) -> (r: Result<Option<&'static str>, SliceError>)
    ensures
        match timelapse_type_spec(opt_model(value)) {
            Ok(None) => r matches Ok(None),
            Ok(Some(s)) => r matches Ok(Some(t)) && t@ == s,
            Err(m) => r matches Err(e) && message_of(e) == m,
        },
{
    let error = "timelapse_type must be a supported Orca timelapse type";
    match value {
        None => Ok(None),
        Some(v) => match v {
            JsonValue::String(s) => if str_eq(s.as_str(), "0") {
                Ok(Some("0"))
            } else if str_eq(s.as_str(), "1") {
                Ok(Some("1"))
            } else {
                Err(invalid_message(error))
            },
            _ => Err(invalid_message(error)),
        },
    }
}

/// The JSON number of an integer.
pub fn integer_value(value: i64) -> (r: JsonValue)
    ensures
        r.model() == int_json(value as int),
{
    if value >= 0 {
        JsonValue::Number(JsonNumber::PosInt(value as u64))
    } else {
        JsonValue::Number(JsonNumber::NegInt(value))
    }
}

/// `values` with `key` set to `value` unless it is already set.
pub open spec fn or_insert(values: Map<Seq<char>, Json>, key: Seq<char>, value: Json) -> Map<
    Seq<char>,
    Json,
> {
    if values.contains_key(key) {
        values
    } else {
        values.insert(key, value)
    }
}

/// An array of `len` times `false`.
pub open spec fn false_array(len: nat) -> Json {
    Json::Array(Seq::new(len, |i: int| Json::Bool(false)))
}

/// A boolean, or (where allowed) a null.
pub open spec fn bool_or_null(j: Json, allow_null: bool) -> bool {
    j is Bool || (allow_null && j is Null)
}

/// What `disable_bool_array` does: a boolean array (where `allow_null`,
/// nulls allowed too) becomes all `false`, an unset option one `false`.
pub open spec fn disable_bool_array_spec(
    values: Map<Seq<char>, Json>,
    key: Seq<char>,
    allow_null: bool,
) -> Result<Map<Seq<char>, Json>, Seq<char>> {
    match opt_get(values, key) {
        None => Ok(values.insert(key, false_array(1))),
        Some(Json::Array(items)) => if forall|i: int|
            0 <= i < items.len() ==> #[trigger] bool_or_null(items[i], allow_null) {
            Ok(values.insert(key, false_array(items.len())))
        } else {
            Err(key + " must be a boolean array"@)
        },
        Some(_) => Err(key + " must be a boolean array"@),
    }
}

/// An array of `len` times `false`.
fn false_values(len: usize) -> (r: JsonValue)
    ensures
        r.model() == false_array(len as nat),
{
    let mut items: Vec<JsonValue> = Vec::new();
    let mut i: usize = 0;
    while i < len
        invariant
            i <= len,
            items@.len() == i,
            forall|k: int| 0 <= k < i ==> (#[trigger] items@[k]).model() == Json::Bool(false),
        decreases len - i,
    {
        items.push(JsonValue::Bool(false));
        i = i + 1;
    }
    assert(models(items@) =~= Seq::new(len as nat, |k: int| Json::Bool(false)));
    proof {
        crate::json::lemma_array_model(&items);
    }
    JsonValue::Array(items)
}

/// Whether every item is a boolean, or (where allowed) a null.
fn all_bool_or_null(items: &Vec<JsonValue>, allow_null: bool) -> (r: bool)
    ensures
        r == forall|k: int|
            0 <= k < items@.len() ==> #[trigger] bool_or_null(models(items@)[k], allow_null),
{
    let mut i: usize = 0;
    while i < items.len()
        invariant
            i <= items@.len(),
            forall|k: int| 0 <= k < i ==> #[trigger] bool_or_null(models(items@)[k], allow_null),
        decreases items@.len() - i,
    {
        assert(models(items@)[i as int] == items@[i as int].model());
        if !(items[i].is_boolean() || (allow_null && items[i].is_null())) {
            assert(!bool_or_null(models(items@)[i as int], allow_null));
            return false;
        }
        i = i + 1;
    }
    true
}

/// Sets every entry of a boolean array option to `false`.
pub fn disable_bool_array(options: &mut SliceOptions, key: &str, allow_null: bool) -> (r: Result<
    (),
    SliceError,
>)
    ensures
        match disable_bool_array_spec(old(options)@, key@, allow_null) {
            Ok(m) => r is Ok && final(options)@ == m,
            Err(e) => r matches Err(x) && message_of(x) == e && final(options)@ == old(options)@,
        },
{
    proof {
        reveal_strlit(" must be a boolean array");
    }
    let len: usize = match options.values().get(key) {
        None => 1,
        Some(value) => match value.as_array() {
            Some(items) => {
                if !all_bool_or_null(items, allow_null) {
                    return Err(invalid(key, " must be a boolean array"));
                }
                items.len()
            },
            None => return Err(invalid(key, " must be a boolean array")),
        },
    };
    let value = false_values(len);
    options.insert(owned(key), value);
    Ok(())
}

/// The options after the legacy `extruder` option: removed, and when not
/// zero it becomes the sparse infill and wall filament unless those are set.
pub open spec fn extruder_step(m: Map<Seq<char>, Json>) -> (Map<Seq<char>, Json>, Result<(), Seq<char>>) {
    if !m.contains_key("extruder"@) {
        (m, Ok(()))
    } else {
        match non_negative_integer_spec("extruder"@, m["extruder"@]) {
            Err(e) => (m, Err(e)),
            Ok(x) => {
                let removed = m.remove("extruder"@);
                if x != 0 {
                    (
                        or_insert(
                            or_insert(removed, "sparse_infill_filament"@, int_json(x as int)),
                            "wall_filament"@,
                            int_json(x as int),
                        ),
                        Ok(()),
                    )
                } else {
                    (removed, Ok(()))
                }
            },
        }
    }
}

/// The options after the solid infill filament defaults to the sparse
/// infill filament.
pub open spec fn solid_infill_step(m: Map<Seq<char>, Json>) -> (
    Map<Seq<char>, Json>,
    Result<(), Seq<char>>,
) {
    if !m.contains_key("solid_infill_filament"@) && m.contains_key("sparse_infill_filament"@) {
        match non_negative_integer_spec("sparse_infill_filament"@, m["sparse_infill_filament"@]) {
            Err(e) => (m, Err(e)),
            Ok(x) => (m.insert("solid_infill_filament"@, int_json(x as int)), Ok(())),
        }
    } else {
        (m, Ok(()))
    }
}

/// The options after spiral vase mode: no retraction on layer change, one
/// wall, no alternate extra wall, no top shell layers, no sparse infill.
pub open spec fn spiral_step(m: Map<Seq<char>, Json>) -> (Map<Seq<char>, Json>, Result<(), Seq<char>>) {
    if !m.contains_key("spiral_mode"@) {
        (m, Ok(()))
    } else {
        match parse_bool_spec("spiral_mode"@, m["spiral_mode"@]) {
            Err(e) => (m, Err(e)),
            Ok(false) => (m, Ok(())),
            Ok(true) => match disable_bool_array_spec(m, "retract_when_changing_layer"@, false) {
                Err(e) => (m, Err(e)),
                Ok(m1) => match disable_bool_array_spec(
                    m1,
                    "filament_retract_when_changing_layer"@,
                    true,
                ) {
                    Err(e) => (m1, Err(e)),
                    Ok(m2) => (
                        m2.insert("wall_loops"@, int_json(1)).insert(
                            "alternate_extra_wall"@,
                            Json::Bool(false),
                        ).insert("top_shell_layers"@, int_json(0)).insert(
                            "sparse_infill_density"@,
                            int_json(0),
                        ),
                        Ok(()),
                    ),
                },
            },
        }
    }
}

/// The options after the `resolution` option is replaced by its normalized
/// value (or fails) when it is set.
pub open spec fn resolution_step(m: Map<Seq<char>, Json>, resolution: Result<Json, Seq<char>>) -> (
    Map<Seq<char>, Json>,
    Result<(), Seq<char>>,
) {
    if !m.contains_key("resolution"@) {
        (m, Ok(()))
    } else {
        match resolution {
            Err(e) => (m, Err(e)),
            Ok(v) => (m.insert("resolution"@, v), Ok(())),
        }
    }
}

/// The options after the prime tower rules of the first pass: when
/// filaments are used and the prime tower option is set, independent
/// support layer height defaults to on; the prime tower is turned off for
/// a single filament or a by-object sequence unless the timelapse is
/// smooth; a prime tower that stays on turns independent support layer
/// height off.
pub open spec fn prime_tower_step(m: Map<Seq<char>, Json>, used_filaments: nat) -> (
    Map<Seq<char>, Json>,
    Result<(), Seq<char>>,
) {
    if used_filaments > 0 && m.contains_key("enable_prime_tower"@) {
        let m1 = or_insert(m, "independent_support_layer_height"@, Json::Bool(true));
        match parse_bool_spec("enable_prime_tower"@, m1["enable_prime_tower"@]) {
            Err(e) => (m1, Err(e)),
            Ok(enabled) => match print_sequence_spec(opt_get(m1, "print_sequence"@)) {
                Err(e) => (m1, Err(e)),
                Ok(sequence) => match timelapse_type_spec(opt_get(m1, "timelapse_type"@)) {
                    Err(e) => (m1, Err(e)),
                    Ok(timelapse) => {
                        let smooth = timelapse == Some("1"@);
                        let turn_off = !smooth && (used_filaments == 1 || sequence == "by object"@);
                        let m2 = if turn_off {
                            m1.insert("enable_prime_tower"@, Json::Bool(false))
                        } else {
                            m1
                        };
                        let still_on = enabled && !turn_off;
                        let m3 = if still_on {
                            m2.insert("independent_support_layer_height"@, Json::Bool(false))
                        } else {
                            m2
                        };
                        (m3, Ok(()))
                    },
                },
            },
        }
    } else {
        (m, Ok(()))
    }
}

/// The steps of the first normalization pass, in order; the first error
/// stops the pass with the options as they were then.
pub open spec fn normalize_fdm_spec(
    m: Map<Seq<char>, Json>,
    used_filaments: nat,
    resolution: Result<Json, Seq<char>>,
) -> (Map<Seq<char>, Json>, Result<(), Seq<char>>) {
    let (m1, r1) = extruder_step(m);
    if r1 is Err {
        (m1, r1)
    } else {
        let (m2, r2) = solid_infill_step(m1);
        if r2 is Err {
            (m2, r2)
        } else {
            let (m3, r3) = spiral_step(m2);
            if r3 is Err {
                (m3, r3)
            } else {
                let (m4, r4) = resolution_step(m3, resolution);
                if r4 is Err {
                    (m4, r4)
                } else {
                    prime_tower_step(m4, used_filaments)
                }
            }
        }
    }
}

/// The model of a computed option value or its error.
pub open spec fn result_model(r: Result<JsonValue, SliceError>) -> Result<Json, Seq<char>> {
    match r {
        Ok(v) => Ok(v.model()),
        Err(e) => Err(message_of(e)),
    }
}

/// Whether the pass ended as the spec says.
pub open spec fn ended_as(r: Result<(), SliceError>, s: Result<(), Seq<char>>) -> bool {
    match s {
        Ok(_) => r is Ok,
        Err(m) => r matches Err(e) && message_of(e) == m,
    }
}

impl SliceOptions {
    fn extruder_pass(&mut self) -> (r: Result<(), SliceError>)
        ensures
            final(self)@ == extruder_step(old(self)@).0,
            ended_as(r, extruder_step(old(self)@).1),
    {
        let extruder = match self.values().get("extruder") {
            None => return Ok(()),
            Some(value) => match parse_non_negative_integer("extruder", value) {
                Ok(x) => x,
                Err(e) => return Err(e),
            },
        };
        self.remove("extruder");
        if extruder != 0 {
            if !self.values().contains_key("sparse_infill_filament") {
                self.insert(owned("sparse_infill_filament"), integer_value(extruder));
            }
            if !self.values().contains_key("wall_filament") {
                self.insert(owned("wall_filament"), integer_value(extruder));
            }
        }
        Ok(())
    }

    fn solid_infill_pass(&mut self) -> (r: Result<(), SliceError>)
        ensures
            final(self)@ == solid_infill_step(old(self)@).0,
            ended_as(r, solid_infill_step(old(self)@).1),
    {
        if self.values().contains_key("solid_infill_filament") {
            return Ok(());
        }
        let sparse = match self.values().get("sparse_infill_filament") {
            None => return Ok(()),
            Some(value) => match parse_non_negative_integer("sparse_infill_filament", value) {
                Ok(x) => x,
                Err(e) => return Err(e),
            },
        };
        self.insert(owned("solid_infill_filament"), integer_value(sparse));
        Ok(())
    }

    fn spiral_pass(&mut self) -> (r: Result<(), SliceError>)
        ensures
            final(self)@ == spiral_step(old(self)@).0,
            ended_as(r, spiral_step(old(self)@).1),
    {
        let spiral = match self.values().get("spiral_mode") {
            None => false,
            Some(value) => match parse_bool("spiral_mode", value) {
                Ok(b) => b,
                Err(e) => return Err(e),
            },
        };
        if !spiral {
            return Ok(());
        }
        match disable_bool_array(self, "retract_when_changing_layer", false) {
            Ok(()) => {},
            Err(e) => return Err(e),
        }
        match disable_bool_array(self, "filament_retract_when_changing_layer", true) {
            Ok(()) => {},
            Err(e) => return Err(e),
        }
        self.insert(owned("wall_loops"), integer_value(1));
        self.insert(owned("alternate_extra_wall"), JsonValue::Bool(false));
        self.insert(owned("top_shell_layers"), integer_value(0));
        self.insert(owned("sparse_infill_density"), integer_value(0));
        Ok(())
    }

    fn prime_tower_pass(&mut self, used_filaments: usize) -> (r: Result<(), SliceError>)
        ensures
            final(self)@ == prime_tower_step(old(self)@, used_filaments as nat).0,
            ended_as(r, prime_tower_step(old(self)@, used_filaments as nat).1),
    {
        if !(used_filaments > 0 && self.values().contains_key("enable_prime_tower")) {
            return Ok(());
        }
        if !self.values().contains_key("independent_support_layer_height") {
            self.insert(owned("independent_support_layer_height"), JsonValue::Bool(true));
        }
        let enabled = match self.values().get("enable_prime_tower") {
            Some(value) => match parse_bool("enable_prime_tower", value) {
                Ok(b) => b,
                Err(e) => return Err(e),
            },
            None => false,
        };
        let sequence = match parse_print_sequence(self.values().get("print_sequence")) {
            Ok(s) => s,
            Err(e) => return Err(e),
        };
        let timelapse = match parse_timelapse_type(self.values().get("timelapse_type")) {
            Ok(t) => t,
            Err(e) => return Err(e),
        };
        let smooth = match timelapse {
            Some(t) => str_eq(t, "1"),
            None => false,
        };
        let turn_off = !smooth && (used_filaments == 1 || str_eq(sequence, "by object"));
        if turn_off {
            self.insert(owned("enable_prime_tower"), JsonValue::Bool(false));
        }
        if enabled && !turn_off {
            self.insert(owned("independent_support_layer_height"), JsonValue::Bool(false));
        }
        Ok(())
    }

    /// The first FDM normalization pass. `resolution` is the normalized
    /// value of the `resolution` option (at least 0.001), or its error,
    /// which the caller works out with float arithmetic; it is used only
    /// when the option is set. On error the options stay as the steps
    /// before the failing one left them.
    pub fn normalize_fdm(
        &mut self,
        used_filaments: usize,
        resolution: Result<JsonValue, SliceError>,
    ) -> (r: Result<(), SliceError>)
        ensures
            final(self)@ == normalize_fdm_spec(
                old(self)@,
                used_filaments as nat,
                result_model(resolution),
            ).0,
            ended_as(
                r,
                normalize_fdm_spec(old(self)@, used_filaments as nat, result_model(resolution)).1,
            ),
    {
        match self.extruder_pass() {
            Ok(()) => {},
            Err(e) => return Err(e),
        }
        match self.solid_infill_pass() {
            Ok(()) => {},
            Err(e) => return Err(e),
        }
        match self.spiral_pass() {
            Ok(()) => {},
            Err(e) => return Err(e),
        }
        if self.values().contains_key("resolution") {
            match resolution {
                Ok(v) => self.insert(owned("resolution"), v),
                Err(e) => return Err(e),
            }
        }
        self.prime_tower_pass(used_filaments)
    }
}


/// What the second normalization pass does: when filaments are used and the
/// prime tower option is set, independent support layer height defaults to
/// on; the prime tower is turned off for a single filament, or a by-object
/// sequence of more than one object, unless the timelapse is smooth or
/// wrapping detection is on; a prime tower that stays on turns independent
/// support layer height off. The keys changed are listed in order.
pub open spec fn normalize_fdm_2_spec(m: Map<Seq<char>, Json>, num_objects: nat, used_filaments: nat) -> (
    Map<Seq<char>, Json>,
    Result<Seq<Seq<char>>, Seq<char>>,
) {
    if used_filaments == 0 || !m.contains_key("enable_prime_tower"@) {
        (m, Ok(Seq::empty()))
    } else {
        let m1 = or_insert(m, "independent_support_layer_height"@, Json::Bool(true));
        match parse_bool_spec("enable_prime_tower"@, m1["enable_prime_tower"@]) {
            Err(e) => (m1, Err(e)),
            Ok(enabled) => match print_sequence_spec(opt_get(m1, "print_sequence"@)) {
                Err(e) => (m1, Err(e)),
                Ok(sequence) => match timelapse_type_spec(opt_get(m1, "timelapse_type"@)) {
                    Err(e) => (m1, Err(e)),
                    Ok(timelapse) => match (match opt_get(m1, "enable_wrapping_detection"@) {
                        None => Ok(false),
                        Some(j) => parse_bool_spec("enable_wrapping_detection"@, j),
                    }) {
                        Err(e) => (m1, Err(e)),
                        Ok(wrapping) => {
                            let smooth = timelapse == Some("1"@);
                            let turn_off = !smooth && !wrapping && (used_filaments == 1 || (
                            sequence == "by object"@ && num_objects > 1)) && enabled;
                            let m2 = if turn_off {
                                m1.insert("enable_prime_tower"@, Json::Bool(false))
                            } else {
                                m1
                            };
                            let changed: Seq<Seq<char>> = if turn_off {
                                seq!["enable_prime_tower"@]
                            } else {
                                Seq::empty()
                            };
                            if enabled && !turn_off {
                                match parse_bool_spec(
                                    "independent_support_layer_height"@,
                                    m2["independent_support_layer_height"@],
                                ) {
                                    Err(e) => (m2, Err(e)),
                                    Ok(independent) => if independent {
                                        (
                                            m2.insert(
                                                "independent_support_layer_height"@,
                                                Json::Bool(false),
                                            ),
                                            Ok(changed.push("independent_support_layer_height"@)),
                                        )
                                    } else {
                                        (m2, Ok(changed))
                                    },
                                }
                            } else {
                                (m2, Ok(changed))
                            }
                        },
                    },
                },
            },
        }
    }
}

/// The strings' views.
pub open spec fn string_seq_views(v: Seq<String>) -> Seq<Seq<char>> {
    v.map_values(|s: String| s@)
}

impl SliceOptions {
    /// The second FDM normalization pass; gives the keys it changed. On
    /// error the options stay as the pass left them.
    pub fn normalize_fdm_2(&mut self, num_objects: usize, used_filaments: usize) -> (r: Result<
        Vec<String>,
        SliceError,
    >)
        ensures
            final(self)@ == normalize_fdm_2_spec(
                old(self)@,
                num_objects as nat,
                used_filaments as nat,
            ).0,
            match normalize_fdm_2_spec(old(self)@, num_objects as nat, used_filaments as nat).1 {
                Ok(keys) => r matches Ok(v) && string_seq_views(v@) == keys,
                Err(m) => r matches Err(e) && message_of(e) == m,
            },
    {
        let mut changed: Vec<String> = Vec::new();
        if used_filaments == 0 || !self.values().contains_key("enable_prime_tower") {
            assert(string_seq_views(changed@) =~= Seq::<Seq<char>>::empty());
            return Ok(changed);
        }
        if !self.values().contains_key("independent_support_layer_height") {
            self.insert(owned("independent_support_layer_height"), JsonValue::Bool(true));
        }
        let enabled = match self.values().get("enable_prime_tower") {
            Some(value) => match parse_bool("enable_prime_tower", value) {
                Ok(b) => b,
                Err(e) => return Err(e),
            },
            None => false,
        };
        let sequence = match parse_print_sequence(self.values().get("print_sequence")) {
            Ok(s) => s,
            Err(e) => return Err(e),
        };
        let timelapse = match parse_timelapse_type(self.values().get("timelapse_type")) {
            Ok(t) => t,
            Err(e) => return Err(e),
        };
        let wrapping = match self.values().get("enable_wrapping_detection") {
            None => false,
            Some(value) => match parse_bool("enable_wrapping_detection", value) {
                Ok(b) => b,
                Err(e) => return Err(e),
            },
        };
        let smooth = match timelapse {
            Some(t) => str_eq(t, "1"),
            None => false,
        };
        let turn_off = !smooth && !wrapping && (used_filaments == 1 || (str_eq(sequence, "by object")
            && num_objects > 1)) && enabled;
        if turn_off {
            self.insert(owned("enable_prime_tower"), JsonValue::Bool(false));
            changed.push(owned("enable_prime_tower"));
        }
        let ghost changed_before = string_seq_views(changed@);
        assert(changed_before =~= if turn_off {
            seq!["enable_prime_tower"@]
        } else {
            Seq::<Seq<char>>::empty()
        });
        if enabled && !turn_off {
            let independent = match self.values().get("independent_support_layer_height") {
                Some(value) => match parse_bool("independent_support_layer_height", value) {
                    Ok(b) => b,
                    Err(e) => return Err(e),
                },
                None => false,
            };
            if independent {
                self.insert(owned("independent_support_layer_height"), JsonValue::Bool(false));
                changed.push(owned("independent_support_layer_height"));
                assert(string_seq_views(changed@) =~= changed_before.push(
                    "independent_support_layer_height"@,
                ));
            }
        }
        Ok(changed)
    }
}

/// The second normalization pass touches only the prime tower option and
/// independent support layer height.
proof fn lemma_normalize_fdm_2_other_keys(
    m: Map<Seq<char>, Json>,
    num_objects: nat,
    used_filaments: nat,
    k: Seq<char>,
)
    requires
        k != "enable_prime_tower"@,
        k != "independent_support_layer_height"@,
    ensures
        opt_get(normalize_fdm_2_spec(m, num_objects, used_filaments).0, k) == opt_get(m, k),
{
}

/// Running the second normalization pass again on what it produced changes
/// nothing and reports no key.
pub proof fn lemma_normalize_fdm_2_idempotent(
    m: Map<Seq<char>, Json>,
    num_objects: nat,
    used_filaments: nat,
)
    requires
        normalize_fdm_2_spec(m, num_objects, used_filaments).1 is Ok,
    ensures
        ({
            let after = normalize_fdm_2_spec(m, num_objects, used_filaments).0;
            normalize_fdm_2_spec(after, num_objects, used_filaments) == (
                after,
                Ok::<Seq<Seq<char>>, Seq<char>>(Seq::empty()),
            )
        }),
{
    let after = normalize_fdm_2_spec(m, num_objects, used_filaments).0;
    reveal_strlit("enable_wrapping_detection");
    reveal_strlit("print_sequence");
    reveal_strlit("timelapse_type");
    reveal_strlit("enable_prime_tower");
    reveal_strlit("independent_support_layer_height");
    if used_filaments > 0 && m.contains_key("enable_prime_tower"@) {
        let m1 = or_insert(m, "independent_support_layer_height"@, Json::Bool(true));
        lemma_normalize_fdm_2_other_keys(m, num_objects, used_filaments, "print_sequence"@);
        lemma_normalize_fdm_2_other_keys(m, num_objects, used_filaments, "timelapse_type"@);
        assert("enable_wrapping_detection"@.len() == 25);
        assert("enable_prime_tower"@.len() == 18);
        lemma_normalize_fdm_2_other_keys(
            m,
            num_objects,
            used_filaments,
            "enable_wrapping_detection"@,
        );
        assert(or_insert(after, "independent_support_layer_height"@, Json::Bool(true)) =~= after);
    }
}


/// After a successful first normalization pass the legacy `extruder`
/// option is gone.
pub proof fn lemma_normalize_fdm_drops_extruder(
    m: Map<Seq<char>, Json>,
    used_filaments: nat,
    resolution: Result<Json, Seq<char>>,
)
    ensures
        normalize_fdm_spec(m, used_filaments, resolution).1 is Ok ==> !normalize_fdm_spec(
            m,
            used_filaments,
            resolution,
        ).0.contains_key("extruder"@),
{
    reveal_strlit("extruder");
    assert("extruder"@.len() == 8);
    reveal_strlit("solid_infill_filament");
    assert("solid_infill_filament"@.len() == 21);
    reveal_strlit("retract_when_changing_layer");
    assert("retract_when_changing_layer"@.len() == 27);
    reveal_strlit("filament_retract_when_changing_layer");
    assert("filament_retract_when_changing_layer"@.len() == 36);
    reveal_strlit("wall_loops");
    assert("wall_loops"@.len() == 10);
    reveal_strlit("alternate_extra_wall");
    assert("alternate_extra_wall"@.len() == 20);
    reveal_strlit("top_shell_layers");
    assert("top_shell_layers"@.len() == 16);
    reveal_strlit("sparse_infill_density");
    assert("sparse_infill_density"@.len() == 21);
    reveal_strlit("resolution");
    assert("resolution"@.len() == 10);
    reveal_strlit("independent_support_layer_height");
    assert("independent_support_layer_height"@.len() == 32);
    reveal_strlit("enable_prime_tower");
    assert("enable_prime_tower"@.len() == 18);
    reveal_strlit("sparse_infill_filament");
    assert("sparse_infill_filament"@.len() == 22);
    reveal_strlit("wall_filament");
    assert("wall_filament"@.len() == 13);
}

/// The prime tower rules of the first pass, on one step.
proof fn lemma_prime_tower_step_rules(m: Map<Seq<char>, Json>, used_filaments: nat)
    requires
        prime_tower_step(m, used_filaments).1 is Ok,
        used_filaments > 0,
        m.contains_key("enable_prime_tower"@),
    ensures
        ({
            let f = prime_tower_step(m, used_filaments).0;
            let turned_off = (used_filaments == 1 || opt_get(f, "print_sequence"@) == Some(
                Json::Str("by object"@),
            )) && opt_get(f, "timelapse_type"@) != Some(Json::Str("1"@));
            &&& f.contains_key("enable_prime_tower"@)
            &&& f.contains_key("independent_support_layer_height"@)
            &&& turned_off ==> f["enable_prime_tower"@] == Json::Bool(false)
            &&& !turned_off ==> f["enable_prime_tower"@] == m["enable_prime_tower"@]
            &&& f["enable_prime_tower"@] == Json::Bool(true)
                ==> f["independent_support_layer_height"@] == Json::Bool(false)
        }),
{
    reveal_strlit("enable_prime_tower");
    reveal_strlit("independent_support_layer_height");
    reveal_strlit("print_sequence");
    reveal_strlit("timelapse_type");
    reveal_strlit("by object");
    reveal_strlit("by layer");
    reveal_strlit("1");
    reveal_strlit("0");
    assert("enable_prime_tower"@.len() == 18);
    assert("independent_support_layer_height"@.len() == 32);
    assert("print_sequence"@.len() == 14);
    assert("timelapse_type"@.len() == 14);
    assert("by object"@.len() == 9);
    assert("by layer"@.len() == 8);
    assert("1"@ != "0"@) by {
        assert("1"@[0] != "0"@[0]);
    }
}

/// The prime tower rules of the first normalization pass. After a
/// successful pass with filaments in use and the prime tower option set,
/// both it and independent support layer height are set; a single
/// filament or a by-object print sequence turns the prime tower off unless
/// the timelapse is smooth, and otherwise the prime tower option keeps the
/// value it had; a prime tower left on has independent support layer
/// height turned off.
pub proof fn lemma_normalize_fdm_prime_tower_rules(
    m: Map<Seq<char>, Json>,
    used_filaments: nat,
    resolution: Result<Json, Seq<char>>,
)
    requires
        normalize_fdm_spec(m, used_filaments, resolution).1 is Ok,
        used_filaments > 0,
        m.contains_key("enable_prime_tower"@),
    ensures
        ({
            let f = normalize_fdm_spec(m, used_filaments, resolution).0;
            let turned_off = (used_filaments == 1 || opt_get(f, "print_sequence"@) == Some(
                Json::Str("by object"@),
            )) && opt_get(f, "timelapse_type"@) != Some(Json::Str("1"@));
            &&& f.contains_key("enable_prime_tower"@)
            &&& f.contains_key("independent_support_layer_height"@)
            &&& turned_off ==> f["enable_prime_tower"@] == Json::Bool(false)
            &&& !turned_off ==> f["enable_prime_tower"@] == m["enable_prime_tower"@]
            &&& f["enable_prime_tower"@] == Json::Bool(true)
                ==> f["independent_support_layer_height"@] == Json::Bool(false)
        }),
{
    reveal_strlit("extruder");
    assert("extruder"@.len() == 8);
    reveal_strlit("solid_infill_filament");
    assert("solid_infill_filament"@.len() == 21);
    reveal_strlit("retract_when_changing_layer");
    assert("retract_when_changing_layer"@.len() == 27);
    reveal_strlit("filament_retract_when_changing_layer");
    assert("filament_retract_when_changing_layer"@.len() == 36);
    reveal_strlit("wall_loops");
    assert("wall_loops"@.len() == 10);
    reveal_strlit("alternate_extra_wall");
    assert("alternate_extra_wall"@.len() == 20);
    reveal_strlit("top_shell_layers");
    assert("top_shell_layers"@.len() == 16);
    reveal_strlit("sparse_infill_density");
    assert("sparse_infill_density"@.len() == 21);
    reveal_strlit("resolution");
    assert("resolution"@.len() == 10);
    reveal_strlit("enable_prime_tower");
    assert("enable_prime_tower"@.len() == 18);
    reveal_strlit("sparse_infill_filament");
    assert("sparse_infill_filament"@.len() == 22);
    reveal_strlit("wall_filament");
    assert("wall_filament"@.len() == 13);
    let (m1, r1) = extruder_step(m);
    let (m2, r2) = solid_infill_step(m1);
    let (m3, r3) = spiral_step(m2);
    let (m4, r4) = resolution_step(m3, resolution);
    assert(m1.contains_key("enable_prime_tower"@) && m1["enable_prime_tower"@]
        == m["enable_prime_tower"@]);
    assert(m2.contains_key("enable_prime_tower"@) && m2["enable_prime_tower"@]
        == m["enable_prime_tower"@]);
    assert(m3.contains_key("enable_prime_tower"@) && m3["enable_prime_tower"@]
        == m["enable_prime_tower"@]);
    assert(m4.contains_key("enable_prime_tower"@) && m4["enable_prime_tower"@]
        == m["enable_prime_tower"@]);
    assert(normalize_fdm_spec(m, used_filaments, resolution) == prime_tower_step(
        m4,
        used_filaments,
    ));
    lemma_prime_tower_step_rules(m4, used_filaments);
}

} // verus!
