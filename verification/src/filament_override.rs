//! Filament overrides of extruder retraction options, and the option diffs
//! that decide which keys a print has to re-apply.
use vstd::prelude::*;
use crate::error::{SliceError, invalid, invalid_message};
use crate::json::{
    Json, JsonValue, json_as_array, json_as_i64, json_as_str, json_equal, models, duplicate_all,
    canonical, canonical_seq,
    lemma_array_model,
};
use crate::option_map::OptionMap;
use crate::slice_options::agrees;
use crate::text::{concat, owned, str_eq};

verus! {

/// The value of `enable_long_retraction_when_cut` that lets the filament
/// choose its own long-retraction values.
pub const ENABLE_FILAMENT_LONG_RETRACTION: i64 = 2;

/// The two options whose filament values only apply in filament mode.
pub open spec fn is_long_retraction_key(key: Seq<char>) -> bool {
    key == "long_retractions_when_cut"@ || key == "retraction_distances_when_cut"@
}

/// A value written as the text `nil`.
pub open spec fn is_nil_json(j: Json) -> bool {
    json_as_str(j) == Some("nil"@)
}

/// An array of `n` nil entries.
pub open spec fn nil_array(n: nat) -> Json {
    Json::Array(Seq::new(n, |i: int| Json::Str("nil"@)))
}

/// What `prepared_filament_override_value` gives.
pub open spec fn prepared_spec(key: Seq<char>, filament: Json, enable: Option<Json>) -> Result<
    Json,
    Seq<char>,
> {
    if !is_long_retraction_key(key) {
        Ok(filament)
    } else {
        let mode = match enable {
            Some(j) => json_as_i64(j),
            None => None,
        };
        match mode {
            None => Err("enable_long_retraction_when_cut must be an integer"@),
            Some(m) => if m == ENABLE_FILAMENT_LONG_RETRACTION {
                Ok(filament)
            } else {
                match json_as_array(filament) {
                    Some(items) => Ok(nil_array(items.len())),
                    None => Err(key + " must be an array"@),
                }
            },
        }
    }
}

/// Whether a value is the text `nil`.
pub fn is_nil(value: &JsonValue) -> (r: bool)
    ensures
        r == is_nil_json(value.model()),
{
    match value.as_str() {
        Some(text) => str_eq(text, "nil"),
        None => false,
    }
}

/// The mode that `enable_long_retraction_when_cut` selects.
pub fn enable_long_retraction_value(value: Option<&JsonValue>) -> (r: Result<i64, SliceError>)
    ensures
        agrees(
            r,
            match value {
                Some(v) => match json_as_i64(v.model()) {
                    Some(m) => Ok(m),
                    None => Err("enable_long_retraction_when_cut must be an integer"@),
                },
                None => Err("enable_long_retraction_when_cut must be an integer"@),
            },
        ),
{
    match value {
        Some(v) => match v.as_i64() {
            Some(m) => Ok(m),
            None => Err(invalid_message("enable_long_retraction_when_cut must be an integer")),
        },
        None => Err(invalid_message("enable_long_retraction_when_cut must be an integer")),
    }
}

/// An array of `nil` texts as long as the array `value`.
pub fn nil_array_like(key: &str, value: &JsonValue) -> (r: Result<JsonValue, SliceError>)
    ensures
        match json_as_array(value.model()) {
            Some(items) => r matches Ok(v) && v.model() == nil_array(items.len()),
            None => agrees(r, Err(key@ + " must be an array"@)),
        },
{
    match value.as_array() {
        Some(items) => {
            let mut nils: Vec<JsonValue> = Vec::new();
            let mut i: usize = 0;
            while i < items.len()
                invariant
                    i <= items@.len(),
                    nils@.len() == i,
                    forall|j: int| 0 <= j < i ==> #[trigger] nils@[j].model() == Json::Str("nil"@),
                decreases items@.len() - i,
            {
                nils.push(JsonValue::String(owned("nil")));
                i = i + 1;
            }
            let r = JsonValue::Array(nils);
            proof {
                lemma_array_model(&nils);
                assert(models(nils@) =~= nil_array(items@.len())->Array_0);
            }
            Ok(r)
        },
        None => Err(invalid(key, " must be an array")),
    }
}

/// The filament value to apply: unchanged, except that the long-retraction
/// options turn into nil arrays unless the filament mode is selected.
pub fn prepared_filament_override_value(
    key: &str,
    filament_value: &JsonValue,
    enable_long_retraction_when_cut: Option<&JsonValue>,
) -> (r: Result<JsonValue, SliceError>)
    ensures
        match prepared_spec(
            key@,
            filament_value.model(),
            match enable_long_retraction_when_cut {
                Some(v) => Some(v.model()),
                None => None,
            },
        ) {
            Ok(j) => r matches Ok(v) && v.model() == j,
            Err(m) => agrees(r, Err(m)),
        },
{
    if !str_eq(key, "long_retractions_when_cut") && !str_eq(key, "retraction_distances_when_cut") {
        return Ok(filament_value.duplicate());
    }
    let mode = enable_long_retraction_value(enable_long_retraction_when_cut)?;
    if mode == ENABLE_FILAMENT_LONG_RETRACTION {
        return Ok(filament_value.duplicate());
    }
    nil_array_like(key, filament_value)
}

/// The default for slot `i` of a nullable override: the one-based
/// `default_index` entry of the machine values as they were before the
/// override when it names one, else the first of them.
pub open spec fn default_slot(defaults: Seq<Json>, default_index: Seq<isize>, i: int) -> Json {
    if i < default_index.len() && default_index[i] - 1 >= 0 && default_index[i] - 1
        < defaults.len() {
        defaults[default_index[i] - 1]
    } else {
        defaults[0]
    }
}

/// Whether some override entry is not nil.
pub open spec fn has_non_nil(overrides: Seq<Json>) -> bool {
    exists|i: int| 0 <= i < overrides.len() && !is_nil_json(#[trigger] overrides[i])
}

/// The machine values after the override, and whether it copied a value.
pub open spec fn applied_override(
    machine: Seq<Json>,
    overrides: Seq<Json>,
    default_index: Seq<isize>,
    nullable: bool,
) -> (Seq<Json>, bool) {
    if !nullable {
        if canonical_seq(machine) == canonical_seq(overrides) {
            (machine, false)
        } else {
            (overrides, true)
        }
    } else if machine.len() == 0 || overrides.len() == 0 {
        (machine, false)
    } else {
        (
            Seq::new(
                overrides.len(),
                |i: int|
                    if !is_nil_json(overrides[i]) {
                        overrides[i]
                    } else {
                        default_slot(machine, default_index, i)
                    },
            ),
            has_non_nil(overrides),
        )
    }
}

/// Applying a plain (not nullable) override a second time changes nothing
/// and reports no copy.
pub proof fn lemma_plain_override_idempotent(
    machine: Seq<Json>,
    overrides: Seq<Json>,
    default_index: Seq<isize>,
)
    ensures
        ({
            let once = applied_override(machine, overrides, default_index, false).0;
            applied_override(once, overrides, default_index, false) == (once, false)
        }),
{
}

/// Where a nullable override would read a default index, the index can be
/// decremented.
pub open spec fn default_index_usable(
    machine_len: nat,
    overrides: Seq<Json>,
    default_index: Seq<isize>,
    nullable: bool,
) -> bool {
    nullable && machine_len > 0 && overrides.len() > 0 ==> forall|i: int|
        0 <= i < overrides.len() && i < default_index.len() && is_nil_json(#[trigger] overrides[i])
            ==> default_index[i] > isize::MIN
}

/// Applies filament override values to machine values. Without `nullable`,
/// the override replaces the machine values when they differ; with it, each
/// non-nil override entry is copied and each nil entry takes its default.
/// Returns whether an override value was copied.
pub fn apply_vector_override(
    machine_values: &mut Vec<JsonValue>,
    override_values: &Vec<JsonValue>,
    default_index: &[isize],
    nullable_override: bool,
) -> (r: Result<bool, SliceError>)
    requires
        default_index_usable(
            old(machine_values)@.len(),
            models(override_values@),
            default_index@,
            nullable_override,
        ),
    ensures
        r matches Ok(changed) && (models(final(machine_values)@), changed) == applied_override(
            models(old(machine_values)@),
            models(override_values@),
            default_index@,
            nullable_override,
        ),
{
    let ghost ov = models(override_values@);
    let ghost mv = models(machine_values@);
    if !nullable_override {
        if crate::json::all_equal(machine_values, override_values) {
            return Ok(false);
        }
        *machine_values = duplicate_all(override_values);
        return Ok(true);
    }
    if machine_values.len() == 0 || override_values.len() == 0 {
        return Ok(false);
    }
    let mut result: Vec<JsonValue> = Vec::new();
    let mut modified = false;
    let mut i: usize = 0;
    while i < override_values.len()
        invariant
            i <= override_values@.len(),
            ov == models(override_values@),
            mv == models(machine_values@),
            machine_values@.len() > 0,
            override_values@.len() > 0,
            default_index_usable(machine_values@.len(), ov, default_index@, true),
            result@.len() == i,
            forall|j: int|
                0 <= j < i ==> #[trigger] result@[j].model() == (if !is_nil_json(ov[j]) {
                    ov[j]
                } else {
                    default_slot(mv, default_index@, j)
                }),
            modified == exists|j: int| 0 <= j < i && !is_nil_json(#[trigger] ov[j]),
        decreases override_values@.len() - i,
    {
        let value = &override_values[i];
        if !is_nil(value) {
            result.push(value.duplicate());
            modified = true;
        } else {
            let mut slot: usize = 0;
            assert(ov[i as int] == override_values@[i as int].model());
            if i < default_index.len() {
                let d = default_index[i];
                if d - 1 >= 0 && ((d - 1) as usize) < machine_values.len() {
                    slot = (d - 1) as usize;
                }
            }
            result.push(machine_values[slot].duplicate());
        }
        proof {
            if !is_nil_json(ov[i as int]) {
                assert(0 <= i as int && i < i + 1 && !is_nil_json(ov[i as int]));
            }
            if modified {
                let j = choose|j: int| 0 <= j < i + 1 && !is_nil_json(#[trigger] ov[j]);
                assert(0 <= j < i + 1);
            }
        }
        i = i + 1;
    }
    proof {
        let expected = applied_override(mv, ov, default_index@, true);
        assert(models(result@) =~= expected.0);
    }
    *machine_values = result;
    Ok(modified)
}

/// The prepared filament values, when both they and the new machine values
/// are arrays.
pub open spec fn prepared_arrays(
    key: Seq<char>,
    new_machine: Json,
    filament: Json,
    enable: Option<Json>,
) -> Option<(Seq<Json>, Seq<Json>)> {
    match prepared_spec(key, filament, enable) {
        Ok(p) => match (json_as_array(new_machine), json_as_array(p)) {
            (Some(m), Some(pv)) => Some((m, pv)),
            _ => None,
        },
        Err(_) => None,
    }
}

/// Computing the override never decrements `isize::MIN`.
pub open spec fn compute_usable(
    key: Seq<char>,
    new_machine: Json,
    filament: Json,
    enable: Option<Json>,
    default_index: Seq<isize>,
    nullable: bool,
) -> bool {
    match prepared_arrays(key, new_machine, filament, enable) {
        Some((m, pv)) => default_index_usable(m.len(), pv, default_index, nullable),
        None => true,
    }
}

/// What `compute_filament_override_value` decides: an error, no change
/// (`None`), or the computed value that differs from the old one.
pub open spec fn compute_spec(
    key: Seq<char>,
    old_machine: Json,
    new_machine: Json,
    filament: Json,
    enable: Option<Json>,
    default_index: Seq<isize>,
    nullable: bool,
) -> Result<Option<Json>, Seq<char>> {
    match prepared_spec(key, filament, enable) {
        Err(m) => Err(m),
        Ok(p) => match json_as_array(new_machine) {
            None => Err(key + " machine value must be an array"@),
            Some(mv) => match json_as_array(p) {
                None => Err(key + " filament value must be an array"@),
                Some(pv) => {
                    let computed = Json::Array(applied_override(mv, pv, default_index, nullable).0);
                    if canonical(old_machine) == canonical(computed) {
                        Ok(None)
                    } else {
                        Ok(Some(computed))
                    }
                },
            },
        },
    }
}

pub open spec fn opt_model(v: Option<&JsonValue>) -> Option<Json> {
    match v {
        Some(j) => Some(j.model()),
        None => None,
    }
}

/// The views of a sequence of strings.
pub open spec fn string_views(s: Seq<String>) -> Seq<Seq<char>> {
    Seq::new(s.len(), |i: int| s[i]@)
}

/// The views of a sequence of strings with one more string.
pub proof fn lemma_string_views_push(s: Seq<String>, x: String)
    ensures
        string_views(s.push(x)) =~= string_views(s).push(x@),
{
    assert forall|i: int| 0 <= i < s.len() implies string_views(s.push(x))[i] == string_views(s)[i] by {
        assert(s.push(x)[i] == s[i]);
    }
    assert(s.push(x)[s.len() as int] == x);
}

/// Computes the machine values that the filament override gives; when they
/// differ from the old machine values, records the key and the values.
/// Returns whether it recorded them.
pub fn compute_filament_override_value(
    key: &str,
    old_machine_value: &JsonValue,
    new_machine_value: &JsonValue,
    new_filament_value: &JsonValue,
    enable_long_retraction_when_cut: Option<&JsonValue>,
    default_index: &[isize],
    nullable_override: bool,
    diff_keys: &mut Vec<String>,
    filament_overrides: &mut OptionMap,
) -> (r: Result<bool, SliceError>)
    requires
        compute_usable(
            key@,
            new_machine_value.model(),
            new_filament_value.model(),
            opt_model(enable_long_retraction_when_cut),
            default_index@,
            nullable_override,
        ),
    ensures
        match compute_spec(
            key@,
            old_machine_value.model(),
            new_machine_value.model(),
            new_filament_value.model(),
            opt_model(enable_long_retraction_when_cut),
            default_index@,
            nullable_override,
        ) {
            Err(m) => agrees(r, Err(m)) && string_views(final(diff_keys)@) == string_views(
                old(diff_keys)@,
            ) && final(filament_overrides)@ == old(filament_overrides)@,
            Ok(None) => r matches Ok(false) && string_views(final(diff_keys)@) == string_views(
                old(diff_keys)@,
            ) && final(filament_overrides)@ == old(filament_overrides)@,
            Ok(Some(c)) => r matches Ok(true) && string_views(final(diff_keys)@) == string_views(
                old(diff_keys)@,
            ).push(key@) && final(filament_overrides)@ == old(filament_overrides)@.insert(key@, c),
        },
{
    let prepared = prepared_filament_override_value(
        key,
        new_filament_value,
        enable_long_retraction_when_cut,
    )?;
    let machine_items = match new_machine_value.as_array() {
        Some(items) => items,
        None => {
            return Err(invalid(key, " machine value must be an array"));
        },
    };
    let mut computed_values = duplicate_all(machine_items);
    let prepared_values = match prepared.as_array() {
        Some(items) => items,
        None => {
            return Err(invalid(key, " filament value must be an array"));
        },
    };
    let _ = apply_vector_override(
        &mut computed_values,
        prepared_values,
        default_index,
        nullable_override,
    );
    let computed_value = JsonValue::Array(computed_values);
    proof {
        lemma_array_model(&computed_values);
    }
    if json_equal(old_machine_value, &computed_value) {
        return Ok(false);
    }
    diff_keys.push(owned(key));
    proof {
        assert(string_views(diff_keys@) =~= string_views(old(diff_keys)@).push(key@));
    }
    filament_overrides.insert(owned(key), computed_value);
    Ok(true)
}

/// The extruder options that a filament can override, in the order the
/// override loop visits them.
pub open spec fn retract_keys_spec() -> Seq<Seq<char>> {
    seq![
        "deretraction_speed"@,
        "long_retractions_when_cut"@,
        "retract_before_wipe"@,
        "retract_lift_above"@,
        "retract_lift_below"@,
        "retract_lift_enforce"@,
        "retract_restart_extra"@,
        "retract_when_changing_layer"@,
        "retraction_distances_when_cut"@,
        "retraction_length"@,
        "retraction_minimum_travel"@,
        "retraction_speed"@,
        "wipe"@,
        "wipe_distance"@,
        "z_hop"@,
        "z_hop_types"@,
    ]
}

/// The extruder options that a filament can override.
pub fn extruder_retract_keys() -> (r: Vec<String>)
    ensures
        string_views(r@) == retract_keys_spec(),
{
    let mut keys: Vec<String> = Vec::new();
    keys.push(owned("deretraction_speed"));
    keys.push(owned("long_retractions_when_cut"));
    keys.push(owned("retract_before_wipe"));
    keys.push(owned("retract_lift_above"));
    keys.push(owned("retract_lift_below"));
    keys.push(owned("retract_lift_enforce"));
    keys.push(owned("retract_restart_extra"));
    keys.push(owned("retract_when_changing_layer"));
    keys.push(owned("retraction_distances_when_cut"));
    keys.push(owned("retraction_length"));
    keys.push(owned("retraction_minimum_travel"));
    keys.push(owned("retraction_speed"));
    keys.push(owned("wipe"));
    keys.push(owned("wipe_distance"));
    keys.push(owned("z_hop"));
    keys.push(owned("z_hop_types"));
    assert(string_views(keys@) =~= retract_keys_spec());
    keys
}

/// The state of a diff collection: the keys recorded, the override values
/// recorded, and the error that stopped it.
pub type DiffState = (Seq<Seq<char>>, Map<Seq<char>, Json>, Option<Seq<char>>);

/// One step of the override loop, for `key`.
pub open spec fn override_step(
    state: DiffState,
    key: Seq<char>,
    old_machine: Map<Seq<char>, Json>,
    new_machine: Map<Seq<char>, Json>,
    new_full: Map<Seq<char>, Json>,
    enable: Option<Json>,
    default_index: Seq<isize>,
    nullable: bool,
) -> DiffState {
    let (d, o, e) = state;
    let fkey = "filament_"@ + key;
    if e is Some || !new_full.contains_key(fkey) {
        state
    } else if !old_machine.contains_key(key) {
        (d, o, Some(key + " old machine value is missing"@))
    } else if !new_machine.contains_key(key) {
        (d, o, Some(key + " new machine value is missing"@))
    } else {
        match compute_spec(
            key,
            old_machine[key],
            new_machine[key],
            new_full[fkey],
            enable,
            default_index,
            nullable,
        ) {
            Err(m) => (d, o, Some(m)),
            Ok(None) => (d, o, None),
            Ok(Some(c)) => (d.push(key), o.insert(key, c), None),
        }
    }
}

/// The step for `key` computes an override, and may do so.
pub open spec fn override_step_usable(
    state: DiffState,
    key: Seq<char>,
    new_machine: Map<Seq<char>, Json>,
    new_full: Map<Seq<char>, Json>,
    enable: Option<Json>,
    default_index: Seq<isize>,
    nullable: bool,
) -> bool {
    let fkey = "filament_"@ + key;
    state.2 is None && new_full.contains_key(fkey) && new_machine.contains_key(key)
        ==> compute_usable(key, new_machine[key], new_full[fkey], enable, default_index, nullable)
}

/// The override loop over `keys`, from `start`.
pub open spec fn override_fold(
    keys: Seq<Seq<char>>,
    start: DiffState,
    old_machine: Map<Seq<char>, Json>,
    new_machine: Map<Seq<char>, Json>,
    new_full: Map<Seq<char>, Json>,
    enable: Option<Json>,
    default_index: Seq<isize>,
    nullable: bool,
) -> DiffState
    decreases keys.len(),
{
    if keys.len() == 0 {
        start
    } else {
        override_step(
            override_fold(
                keys.drop_last(),
                start,
                old_machine,
                new_machine,
                new_full,
                enable,
                default_index,
                nullable,
            ),
            keys.last(),
            old_machine,
            new_machine,
            new_full,
            enable,
            default_index,
            nullable,
        )
    }
}

/// Every step of the override loop over `keys` may compute its override.
pub open spec fn override_fold_usable(
    keys: Seq<Seq<char>>,
    start: DiffState,
    old_machine: Map<Seq<char>, Json>,
    new_machine: Map<Seq<char>, Json>,
    new_full: Map<Seq<char>, Json>,
    enable: Option<Json>,
    default_index: Seq<isize>,
    nullable: bool,
) -> bool
    decreases keys.len(),
{
    keys.len() > 0 ==> override_fold_usable(
        keys.drop_last(),
        start,
        old_machine,
        new_machine,
        new_full,
        enable,
        default_index,
        nullable,
    ) && override_step_usable(
        override_fold(
            keys.drop_last(),
            start,
            old_machine,
            new_machine,
            new_full,
            enable,
            default_index,
            nullable,
        ),
        keys.last(),
        new_machine,
        new_full,
        enable,
        default_index,
        nullable,
    )
}

proof fn lemma_override_fold_usable_prefix(
    keys: Seq<Seq<char>>,
    k: int,
    start: DiffState,
    old_machine: Map<Seq<char>, Json>,
    new_machine: Map<Seq<char>, Json>,
    new_full: Map<Seq<char>, Json>,
    enable: Option<Json>,
    default_index: Seq<isize>,
    nullable: bool,
)
    requires
        0 <= k <= keys.len(),
        override_fold_usable(
            keys,
            start,
            old_machine,
            new_machine,
            new_full,
            enable,
            default_index,
            nullable,
        ),
    ensures
        override_fold_usable(
            keys.take(k),
            start,
            old_machine,
            new_machine,
            new_full,
            enable,
            default_index,
            nullable,
        ),
    decreases keys.len() - k,
{
    if k < keys.len() {
        lemma_override_fold_usable_prefix(
            keys,
            k + 1,
            start,
            old_machine,
            new_machine,
            new_full,
            enable,
            default_index,
            nullable,
        );
        assert(keys.take(k + 1).drop_last() =~= keys.take(k));
    } else {
        assert(keys.take(k) =~= keys);
    }
}

proof fn lemma_override_fold_error_sticks(
    keys: Seq<Seq<char>>,
    k: int,
    start: DiffState,
    old_machine: Map<Seq<char>, Json>,
    new_machine: Map<Seq<char>, Json>,
    new_full: Map<Seq<char>, Json>,
    enable: Option<Json>,
    default_index: Seq<isize>,
    nullable: bool,
)
    requires
        0 <= k <= keys.len(),
        override_fold(
            keys.take(k),
            start,
            old_machine,
            new_machine,
            new_full,
            enable,
            default_index,
            nullable,
        ).2 is Some,
    ensures
        override_fold(
            keys,
            start,
            old_machine,
            new_machine,
            new_full,
            enable,
            default_index,
            nullable,
        ) == override_fold(
            keys.take(k),
            start,
            old_machine,
            new_machine,
            new_full,
            enable,
            default_index,
            nullable,
        ),
    decreases keys.len() - k,
{
    if k < keys.len() {
        assert(keys.take(k + 1).drop_last() =~= keys.take(k));
        lemma_override_fold_error_sticks(
            keys,
            k + 1,
            start,
            old_machine,
            new_machine,
            new_full,
            enable,
            default_index,
            nullable,
        );
    } else {
        assert(keys.take(k) =~= keys);
    }
}

/// Collects the extruder options that filament overrides change: for each
/// retraction key whose `filament_` value is present, computes the override
/// against the machine values, and records the key and values that differ
/// from the old machine values. Stops at the first error, keeping what it
/// recorded before.
pub fn collect_filament_override_updates(
    old_machine_values: &OptionMap,
    new_machine_values: &OptionMap,
    new_full_config_values: &OptionMap,
    enable_long_retraction_when_cut: Option<&JsonValue>,
    default_index: &[isize],
    nullable_override: bool,
    diff_keys: &mut Vec<String>,
    filament_overrides: &mut OptionMap,
) -> (r: Result<(), SliceError>)
    requires
        override_fold_usable(
            retract_keys_spec(),
            (string_views(old(diff_keys)@), old(filament_overrides)@, None),
            old_machine_values@,
            new_machine_values@,
            new_full_config_values@,
            opt_model(enable_long_retraction_when_cut),
            default_index@,
            nullable_override,
        ),
    ensures
        ({
            let (d, o, e) = override_fold(
                retract_keys_spec(),
                (string_views(old(diff_keys)@), old(filament_overrides)@, None),
                old_machine_values@,
                new_machine_values@,
                new_full_config_values@,
                opt_model(enable_long_retraction_when_cut),
                default_index@,
                nullable_override,
            );
            &&& string_views(final(diff_keys)@) == d
            &&& final(filament_overrides)@ == o
            &&& match e {
                None => r is Ok,
                Some(m) => agrees(r, Err(m)),
            }
        }),
{
    let keys = extruder_retract_keys();
    let ghost start: DiffState = (string_views(diff_keys@), filament_overrides@, None);
    let ghost ks = retract_keys_spec();
    let ghost enable = opt_model(enable_long_retraction_when_cut);
    let mut i: usize = 0;
    while i < keys.len()
        invariant
            i <= keys@.len(),
            string_views(keys@) == ks,
            ks == retract_keys_spec(),
            override_fold_usable(
                ks,
                start,
                old_machine_values@,
                new_machine_values@,
                new_full_config_values@,
                enable,
                default_index@,
                nullable_override,
            ),
            enable == opt_model(enable_long_retraction_when_cut),
            start == (string_views(old(diff_keys)@), old(filament_overrides)@, None::<Seq<char>>),
            override_fold(
                ks.take(i as int),
                start,
                old_machine_values@,
                new_machine_values@,
                new_full_config_values@,
                enable,
                default_index@,
                nullable_override,
            ) == (string_views(diff_keys@), filament_overrides@, None::<Seq<char>>),
        decreases keys@.len() - i,
    {
        let key = keys[i].as_str();
        assert(ks[i as int] == key@);
        assert(ks.take(i + 1).drop_last() =~= ks.take(i as int));
        assert(ks.take(i + 1).last() == key@);
        proof {
            lemma_override_fold_usable_prefix(
                ks,
                i + 1,
                start,
                old_machine_values@,
                new_machine_values@,
                new_full_config_values@,
                enable,
                default_index@,
                nullable_override,
            );
        }
        let filament_key = concat("filament_", key);
        match new_full_config_values.get(filament_key.as_str()) {
            None => {},
            Some(new_filament_value) => {
                let old_machine_value = match old_machine_values.get(key) {
                    Some(v) => v,
                    None => {
                        proof {
                            lemma_override_fold_error_sticks(
                                ks,
                                i + 1,
                                start,
                                old_machine_values@,
                                new_machine_values@,
                                new_full_config_values@,
                                enable,
                                default_index@,
                                nullable_override,
                            );
                        }
                        return Err(invalid(key, " old machine value is missing"));
                    },
                };
                let new_machine_value = match new_machine_values.get(key) {
                    Some(v) => v,
                    None => {
                        proof {
                            lemma_override_fold_error_sticks(
                                ks,
                                i + 1,
                                start,
                                old_machine_values@,
                                new_machine_values@,
                                new_full_config_values@,
                                enable,
                                default_index@,
                                nullable_override,
                            );
                        }
                        return Err(invalid(key, " new machine value is missing"));
                    },
                };
                let computed = compute_filament_override_value(
                    key,
                    old_machine_value,
                    new_machine_value,
                    new_filament_value,
                    enable_long_retraction_when_cut,
                    default_index,
                    nullable_override,
                    diff_keys,
                    filament_overrides,
                );
                if let Err(e) = computed {
                    proof {
                        lemma_override_fold_error_sticks(
                            ks,
                            i + 1,
                            start,
                            old_machine_values@,
                            new_machine_values@,
                            new_full_config_values@,
                            enable,
                            default_index@,
                            nullable_override,
                        );
                    }
                    return Err(e);
                }
            },
        }
        i = i + 1;
    }
    assert(ks.take(keys@.len() as int) =~= ks);
    Ok(())
}

/// The wipe tower origin options, compared at the plate index only.
pub open spec fn is_wipe_tower_key(key: Seq<char>) -> bool {
    key == "wipe_tower_x"@ || key == "wipe_tower_y"@
}

/// What `maybe_push_wipe_tower_plate_diff` decides: whether the values at
/// the plate index differ, one side having none counting as a difference.
pub open spec fn wipe_tower_diff_spec(key: Seq<char>, old: Json, new: Json, plate: int) -> Result<
    bool,
    Seq<char>,
> {
    match json_as_array(old) {
        None => Err(key + " old value must be an array"@),
        Some(o) => match json_as_array(new) {
            None => Err(key + " new value must be an array"@),
            Some(n) => Ok(
                (plate < o.len() && plate < n.len() && canonical(o[plate]) != canonical(n[plate])) || ((plate < o.len())
                    != (plate < n.len())),
            ),
        },
    }
}

/// Records `key` when the wipe tower origin at the plate index differs.
pub fn maybe_push_wipe_tower_plate_diff(
    key: &str,
    old_value: &JsonValue,
    new_value: &JsonValue,
    plate_index: usize,
    diff_keys: &mut Vec<String>,
) -> (r: Result<(), SliceError>)
    ensures
        match wipe_tower_diff_spec(key@, old_value.model(), new_value.model(), plate_index as int) {
            Err(m) => agrees(r, Err(m)) && string_views(final(diff_keys)@) == string_views(
                old(diff_keys)@,
            ),
            Ok(true) => r is Ok && string_views(final(diff_keys)@) == string_views(
                old(diff_keys)@,
            ).push(key@),
            Ok(false) => r is Ok && string_views(final(diff_keys)@) == string_views(
                old(diff_keys)@,
            ),
        },
{
    let old_values = match old_value.as_array() {
        Some(v) => v,
        None => {
            return Err(invalid(key, " old value must be an array"));
        },
    };
    let new_values = match new_value.as_array() {
        Some(v) => v,
        None => {
            return Err(invalid(key, " new value must be an array"));
        },
    };
    let in_old = plate_index < old_values.len();
    let in_new = plate_index < new_values.len();
    let differs = if in_old && in_new {
        !json_equal(&old_values[plate_index], &new_values[plate_index])
    } else {
        in_old != in_new
    };
    if differs {
        diff_keys.push(owned(key));
        proof {
            assert(string_views(diff_keys@) =~= string_views(old(diff_keys)@).push(key@));
        }
    }
    Ok(())
}

/// Whether `keys` holds `key`.
pub fn keys_contain(keys: &Vec<String>, key: &str) -> (r: bool)
    ensures
        r == string_views(keys@).contains(key@),
{
    let mut i: usize = 0;
    while i < keys.len()
        invariant
            i <= keys@.len(),
            forall|j: int| 0 <= j < i ==> #[trigger] keys@[j]@ != key@,
        decreases keys@.len() - i,
    {
        if str_eq(keys[i].as_str(), key) {
            proof {
                assert(string_views(keys@)[i as int] == key@);
            }
            return true;
        }
        i = i + 1;
    }
    proof {
        if string_views(keys@).contains(key@) {
            let j = choose|j: int| 0 <= j < keys@.len() && #[trigger] string_views(keys@)[j] == key@;
            assert(keys@[j]@ == key@);
        }
    }
    false
}

/// One step of the print option diff, for `key`.
pub open spec fn print_diff_step(
    state: DiffState,
    key: Seq<char>,
    current: Map<Seq<char>, Json>,
    new_full: Map<Seq<char>, Json>,
    plate: int,
    enable: Option<Json>,
    default_index: Seq<isize>,
    nullable: bool,
) -> DiffState {
    let (d, o, e) = state;
    let fkey = "filament_"@ + key;
    if e is Some {
        state
    } else if !current.contains_key(key) {
        (d, o, Some(key + " current value is missing"@))
    } else if !new_full.contains_key(key) {
        state
    } else if retract_keys_spec().contains(key) && new_full.contains_key(fkey) {
        match compute_spec(
            key,
            current[key],
            new_full[key],
            new_full[fkey],
            enable,
            default_index,
            nullable,
        ) {
            Err(m) => (d, o, Some(m)),
            Ok(None) => state,
            Ok(Some(c)) => (d.push(key), o.insert(key, c), None),
        }
    } else if canonical(current[key]) == canonical(new_full[key]) {
        state
    } else if is_wipe_tower_key(key) {
        match wipe_tower_diff_spec(key, current[key], new_full[key], plate) {
            Err(m) => (d, o, Some(m)),
            Ok(true) => (d.push(key), o, None),
            Ok(false) => state,
        }
    } else {
        (d.push(key), o, None)
    }
}

/// The print option diff over `keys`.
pub open spec fn print_diff_fold(
    keys: Seq<Seq<char>>,
    start: DiffState,
    current: Map<Seq<char>, Json>,
    new_full: Map<Seq<char>, Json>,
    plate: int,
    enable: Option<Json>,
    default_index: Seq<isize>,
    nullable: bool,
) -> DiffState
    decreases keys.len(),
{
    if keys.len() == 0 {
        start
    } else {
        print_diff_step(
            print_diff_fold(
                keys.drop_last(),
                start,
                current,
                new_full,
                plate,
                enable,
                default_index,
                nullable,
            ),
            keys.last(),
            current,
            new_full,
            plate,
            enable,
            default_index,
            nullable,
        )
    }
}

/// Every step of the print option diff over `keys` may compute its
/// override.
pub open spec fn print_diff_usable(
    keys: Seq<Seq<char>>,
    start: DiffState,
    current: Map<Seq<char>, Json>,
    new_full: Map<Seq<char>, Json>,
    plate: int,
    enable: Option<Json>,
    default_index: Seq<isize>,
    nullable: bool,
) -> bool
    decreases keys.len(),
{
    keys.len() > 0 ==> print_diff_usable(
        keys.drop_last(),
        start,
        current,
        new_full,
        plate,
        enable,
        default_index,
        nullable,
    ) && ({
        let state = print_diff_fold(
            keys.drop_last(),
            start,
            current,
            new_full,
            plate,
            enable,
            default_index,
            nullable,
        );
        let key = keys.last();
        let fkey = "filament_"@ + key;
        state.2 is None && current.contains_key(key) && new_full.contains_key(key)
            && retract_keys_spec().contains(key) && new_full.contains_key(fkey) ==> compute_usable(
            key,
            new_full[key],
            new_full[fkey],
            enable,
            default_index,
            nullable,
        )
    })
}

proof fn lemma_print_diff_prefix(
    keys: Seq<Seq<char>>,
    k: int,
    start: DiffState,
    current: Map<Seq<char>, Json>,
    new_full: Map<Seq<char>, Json>,
    plate: int,
    enable: Option<Json>,
    default_index: Seq<isize>,
    nullable: bool,
)
    requires
        0 <= k <= keys.len(),
        print_diff_usable(keys, start, current, new_full, plate, enable, default_index, nullable),
    ensures
        print_diff_usable(
            keys.take(k),
            start,
            current,
            new_full,
            plate,
            enable,
            default_index,
            nullable,
        ),
        print_diff_fold(keys.take(k), start, current, new_full, plate, enable, default_index, nullable).2
            is Some ==> print_diff_fold(
            keys,
            start,
            current,
            new_full,
            plate,
            enable,
            default_index,
            nullable,
        ) == print_diff_fold(
            keys.take(k),
            start,
            current,
            new_full,
            plate,
            enable,
            default_index,
            nullable,
        ),
    decreases keys.len() - k,
{
    if k < keys.len() {
        lemma_print_diff_prefix(
            keys,
            k + 1,
            start,
            current,
            new_full,
            plate,
            enable,
            default_index,
            nullable,
        );
        assert(keys.take(k + 1).drop_last() =~= keys.take(k));
    } else {
        assert(keys.take(k) =~= keys);
    }
}

/// Collects the print options whose values change from `current_config_values`
/// to `new_full_config_values`, visiting `current_keys` in order: a
/// retraction option with a filament override is computed as an override;
/// the wipe tower origin is compared at the plate index; any other option is
/// recorded when its value changes. Options missing from the new values are
/// skipped. Stops at the first error, keeping what it recorded before.
pub fn collect_print_config_diff_updates(
    current_config_values: &OptionMap,
    new_full_config_values: &OptionMap,
    current_keys: &Vec<String>,
    plate_index: usize,
    enable_long_retraction_when_cut: Option<&JsonValue>,
    default_index: &[isize],
    nullable_override: bool,
    diff_keys: &mut Vec<String>,
    filament_overrides: &mut OptionMap,
) -> (r: Result<(), SliceError>)
    requires
        print_diff_usable(
            string_views(current_keys@),
            (string_views(old(diff_keys)@), old(filament_overrides)@, None),
            current_config_values@,
            new_full_config_values@,
            plate_index as int,
            opt_model(enable_long_retraction_when_cut),
            default_index@,
            nullable_override,
        ),
    ensures
        ({
            let (d, o, e) = print_diff_fold(
                string_views(current_keys@),
                (string_views(old(diff_keys)@), old(filament_overrides)@, None),
                current_config_values@,
                new_full_config_values@,
                plate_index as int,
                opt_model(enable_long_retraction_when_cut),
                default_index@,
                nullable_override,
            );
            &&& string_views(final(diff_keys)@) == d
            &&& final(filament_overrides)@ == o
            &&& match e {
                None => r is Ok,
                Some(m) => agrees(r, Err(m)),
            }
        }),
{
    let retract_keys = extruder_retract_keys();
    let ghost start: DiffState = (string_views(diff_keys@), filament_overrides@, None);
    let ghost ks = string_views(current_keys@);
    let ghost enable = opt_model(enable_long_retraction_when_cut);
    let ghost plate = plate_index as int;
    let mut i: usize = 0;
    while i < current_keys.len()
        invariant
            i <= current_keys@.len(),
            ks == string_views(current_keys@),
            string_views(retract_keys@) == retract_keys_spec(),
            enable == opt_model(enable_long_retraction_when_cut),
            plate == plate_index as int,
            start == (string_views(old(diff_keys)@), old(filament_overrides)@, None::<Seq<char>>),
            print_diff_usable(
                ks,
                start,
                current_config_values@,
                new_full_config_values@,
                plate,
                enable,
                default_index@,
                nullable_override,
            ),
            print_diff_fold(
                ks.take(i as int),
                start,
                current_config_values@,
                new_full_config_values@,
                plate,
                enable,
                default_index@,
                nullable_override,
            ) == (string_views(diff_keys@), filament_overrides@, None::<Seq<char>>),
        decreases current_keys@.len() - i,
    {
        let key = current_keys[i].as_str();
        let ghost before = diff_keys@;
        proof {
            assert(ks[i as int] == key@);
            assert(ks.take(i + 1).drop_last() =~= ks.take(i as int));
            assert(ks.take(i + 1).last() == key@);
            lemma_print_diff_prefix(
                ks,
                i + 1,
                start,
                current_config_values@,
                new_full_config_values@,
                plate,
                enable,
                default_index@,
                nullable_override,
            );
        }
        let old_value = match current_config_values.get(key) {
            Some(v) => v,
            None => {
                return Err(invalid(key, " current value is missing"));
            },
        };
        match new_full_config_values.get(key) {
            None => {},
            Some(new_value) => {
                let filament_key = concat("filament_", key);
                let overridden = if keys_contain(&retract_keys, key) {
                    new_full_config_values.get(filament_key.as_str())
                } else {
                    None
                };
                match overridden {
                    Some(filament_value) => {
                        let computed = compute_filament_override_value(
                            key,
                            old_value,
                            new_value,
                            filament_value,
                            enable_long_retraction_when_cut,
                            default_index,
                            nullable_override,
                            diff_keys,
                            filament_overrides,
                        );
                        if let Err(e) = computed {
                            return Err(e);
                        }
                    },
                    None => {
                        if !json_equal(old_value, new_value) {
                            if str_eq(key, "wipe_tower_x") || str_eq(key, "wipe_tower_y") {
                                maybe_push_wipe_tower_plate_diff(
                                    key,
                                    old_value,
                                    new_value,
                                    plate_index,
                                    diff_keys,
                                )?;
                            } else {
                                diff_keys.push(owned(key));
                                proof {
                                    assert(string_views(diff_keys@) =~= string_views(before).push(
                                        key@,
                                    ));
                                }
                            }
                        }
                    },
                }
            },
        }
        i = i + 1;
    }
    assert(ks.take(current_keys@.len() as int) =~= ks);
    Ok(())
}

/// The state of a key-only diff: the keys recorded and the error that
/// stopped it.
pub type KeyDiffState = (Seq<Seq<char>>, Option<Seq<char>>);

/// One step of the full option diff, for `key`.
pub open spec fn full_diff_step(
    state: KeyDiffState,
    key: Seq<char>,
    current: Map<Seq<char>, Json>,
    new_full: Map<Seq<char>, Json>,
    plate: int,
) -> KeyDiffState {
    let (d, e) = state;
    if e is Some {
        state
    } else if !new_full.contains_key(key) {
        (d, Some(key + " new full value is missing"@))
    } else if !current.contains_key(key) {
        (d.push(key), None)
    } else if canonical(current[key]) == canonical(new_full[key]) {
        state
    } else if is_wipe_tower_key(key) {
        match wipe_tower_diff_spec(key, current[key], new_full[key], plate) {
            Err(m) => (d, Some(m)),
            Ok(true) => (d.push(key), None),
            Ok(false) => state,
        }
    } else {
        (d.push(key), None)
    }
}

/// The full option diff over `keys`.
pub open spec fn full_diff_fold(
    keys: Seq<Seq<char>>,
    start: KeyDiffState,
    current: Map<Seq<char>, Json>,
    new_full: Map<Seq<char>, Json>,
    plate: int,
) -> KeyDiffState
    decreases keys.len(),
{
    if keys.len() == 0 {
        start
    } else {
        full_diff_step(
            full_diff_fold(keys.drop_last(), start, current, new_full, plate),
            keys.last(),
            current,
            new_full,
            plate,
        )
    }
}

proof fn lemma_full_diff_error_sticks(
    keys: Seq<Seq<char>>,
    k: int,
    start: KeyDiffState,
    current: Map<Seq<char>, Json>,
    new_full: Map<Seq<char>, Json>,
    plate: int,
)
    requires
        0 <= k <= keys.len(),
    ensures
        full_diff_fold(keys.take(k), start, current, new_full, plate).1 is Some ==> full_diff_fold(
            keys,
            start,
            current,
            new_full,
            plate,
        ) == full_diff_fold(keys.take(k), start, current, new_full, plate),
    decreases keys.len() - k,
{
    if k < keys.len() {
        lemma_full_diff_error_sticks(keys, k + 1, start, current, new_full, plate);
        assert(keys.take(k + 1).drop_last() =~= keys.take(k));
    } else {
        assert(keys.take(k) =~= keys);
    }
}

/// Collects the options of `new_full_keys` whose full values change: a key
/// absent from the current values is recorded, the wipe tower origin is
/// compared at the plate index, and any other key is recorded when its
/// value changes. Stops at the first error, keeping what it recorded before.
pub fn collect_full_print_config_diff_updates(
    current_full_config_values: &OptionMap,
    new_full_config_values: &OptionMap,
    new_full_keys: &Vec<String>,
    plate_index: usize,
    diff_keys: &mut Vec<String>,
) -> (r: Result<(), SliceError>)
    ensures
        ({
            let (d, e) = full_diff_fold(
                string_views(new_full_keys@),
                (string_views(old(diff_keys)@), None),
                current_full_config_values@,
                new_full_config_values@,
                plate_index as int,
            );
            &&& string_views(final(diff_keys)@) == d
            &&& match e {
                None => r is Ok,
                Some(m) => agrees(r, Err(m)),
            }
        }),
{
    let ghost start: KeyDiffState = (string_views(diff_keys@), None);
    let ghost ks = string_views(new_full_keys@);
    let ghost plate = plate_index as int;
    let mut i: usize = 0;
    while i < new_full_keys.len()
        invariant
            i <= new_full_keys@.len(),
            ks == string_views(new_full_keys@),
            plate == plate_index as int,
            start == (string_views(old(diff_keys)@), None::<Seq<char>>),
            full_diff_fold(
                ks.take(i as int),
                start,
                current_full_config_values@,
                new_full_config_values@,
                plate,
            ) == (string_views(diff_keys@), None::<Seq<char>>),
        decreases new_full_keys@.len() - i,
    {
        let key = new_full_keys[i].as_str();
        let ghost before = diff_keys@;
        proof {
            assert(ks[i as int] == key@);
            assert(ks.take(i + 1).drop_last() =~= ks.take(i as int));
            assert(ks.take(i + 1).last() == key@);
            lemma_full_diff_error_sticks(
                ks,
                i + 1,
                start,
                current_full_config_values@,
                new_full_config_values@,
                plate,
            );
        }
        let new_value = match new_full_config_values.get(key) {
            Some(v) => v,
            None => {
                return Err(invalid(key, " new full value is missing"));
            },
        };
        match current_full_config_values.get(key) {
            None => {
                diff_keys.push(owned(key));
                proof {
                    assert(string_views(diff_keys@) =~= string_views(before).push(key@));
                }
            },
            Some(old_value) => {
                if !json_equal(old_value, new_value) {
                    if str_eq(key, "wipe_tower_x") || str_eq(key, "wipe_tower_y") {
                        maybe_push_wipe_tower_plate_diff(
                            key,
                            old_value,
                            new_value,
                            plate_index,
                            diff_keys,
                        )?;
                    } else {
                        diff_keys.push(owned(key));
                        proof {
                            assert(string_views(diff_keys@) =~= string_views(before).push(key@));
                        }
                    }
                }
            },
        }
        i = i + 1;
    }
    assert(ks.take(new_full_keys@.len() as int) =~= ks);
    Ok(())
}

} // verus!
