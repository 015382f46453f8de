//! Whether the extruders of a multi-extruder printer differ in their type
//! or nozzle volume type.
use vstd::prelude::*;
use crate::error::{SliceError, invalid, message_of};
use crate::json::{Json, JsonValue, models};
use crate::slice_options::SliceOptions;
use crate::extruder_index::opt_get;
use crate::filament_override::{opt_model, string_views, lemma_string_views_push};
use crate::text::{owned, str_eq};

verus! {

/// The texts of enum items, or the error of the first item that is not a
/// string or not one of `allowed`.
pub open spec fn enum_items(items: Seq<Json>, key: Seq<char>, allowed: Seq<Seq<char>>) -> Result<
    Seq<Seq<char>>,
    Seq<char>,
>
    decreases items.len(),
{
    if items.len() == 0 {
        Ok(Seq::empty())
    } else {
        match enum_items(items.drop_last(), key, allowed) {
            Err(m) => Err(m),
            Ok(v) => match items.last() {
                Json::Str(s) => if allowed.contains(s) {
                    Ok(v.push(s))
                } else {
                    Err(key + " has unknown enum value"@)
                },
                _ => Err(key + " must contain strings"@),
            },
        }
    }
}

/// What `optional_enum_vector` gives: nothing when unset, else the
/// non-empty list of allowed strings.
pub open spec fn enum_vector_spec(value: Option<Json>, key: Seq<char>, allowed: Seq<Seq<char>>) -> Result<
    Option<Seq<Seq<char>>>,
    Seq<char>,
> {
    match value {
        None => Ok(None),
        Some(Json::Array(items)) => if items.len() == 0 {
            Err(key + " must not be empty"@)
        } else {
            match enum_items(items, key, allowed) {
                Ok(v) => Ok(Some(v)),
                Err(m) => Err(m),
            }
        },
        Some(_) => Err(key + " must be an enum vector"@),
    }
}

/// Whether `text` is one of `allowed`.
fn is_allowed(text: &str, allowed: &[&str]) -> (r: bool)
    ensures
        r == allowed@.map_values(|a: &str| a@).contains(text@),
{
    let ghost av = allowed@.map_values(|a: &str| a@);
    let mut i: usize = 0;
    while i < allowed.len()
        invariant
            i <= allowed@.len(),
            av == allowed@.map_values(|a: &str| a@),
            forall|j: int| 0 <= j < i ==> av[j] != text@,
        decreases allowed@.len() - i,
    {
        if str_eq(allowed[i], text) {
            assert(av[i as int] == text@);
            return true;
        }
        i = i + 1;
    }
    false
}

/// An optional list of enum strings, each one of `allowed`.
pub fn optional_enum_vector(value: Option<&JsonValue>, key: &str, allowed: &[&str]) -> (r: Result<
    Option<Vec<String>>,
    SliceError,
>)
    ensures
        match enum_vector_spec(opt_model(value), key@, allowed@.map_values(|a: &str| a@)) {
            Ok(None) => r matches Ok(None),
            Ok(Some(v)) => r matches Ok(Some(w)) && string_views(w@) == v,
            Err(m) => r matches Err(e) && message_of(e) == m,
        },
{
    let ghost av = allowed@.map_values(|a: &str| a@);
    let given = match value {
        None => return Ok(None),
        Some(v) => v,
    };
    let items = match given.as_array() {
        Some(items) => items,
        None => {
            proof {
                reveal_strlit(" must be an enum vector");
            }
            return Err(invalid(key, " must be an enum vector"));
        },
    };
    if items.len() == 0 {
        proof {
            reveal_strlit(" must not be empty");
        }
        return Err(invalid(key, " must not be empty"));
    }
    let ghost ms = models(items@);
    let mut out: Vec<String> = Vec::new();
    let mut i: usize = 0;
    assert(ms.take(0) =~= Seq::<Json>::empty());
    assert(string_views(out@) =~= Seq::<Seq<char>>::empty());
    while i < items.len()
        invariant
            i <= items@.len(),
            ms == models(items@),
            ms.len() > 0,
            opt_model(value) == Some(Json::Array(ms)),
            av == allowed@.map_values(|a: &str| a@),
            enum_items(ms.take(i as int), key@, av) == Ok::<Seq<Seq<char>>, Seq<char>>(
                string_views(out@),
            ),
        decreases items@.len() - i,
    {
        proof {
            assert(ms.take(i + 1).drop_last() =~= ms.take(i as int));
            assert(ms[i as int] == items@[i as int].model());
        }
        match &items[i] {
            JsonValue::String(s) => {
                if !is_allowed(s.as_str(), allowed) {
                    proof {
                        reveal_strlit(" has unknown enum value");
                        lemma_enum_items_error(ms, i as int + 1, key@, av);
                    }
                    return Err(invalid(key, " has unknown enum value"));
                }
                let x = owned(s.as_str());
                proof {
                    lemma_string_views_push(out@, x);
                }
                out.push(x);
            },
            _ => {
                proof {
                    reveal_strlit(" must contain strings");
                    lemma_enum_items_error(ms, i as int + 1, key@, av);
                }
                return Err(invalid(key, " must contain strings"));
            },
        }
        i = i + 1;
    }
    assert(ms.take(items@.len() as int) =~= ms);
    Ok(Some(out))
}

/// Once the items of a prefix fail, all items fail the same way.
proof fn lemma_enum_items_error(items: Seq<Json>, n: int, key: Seq<char>, allowed: Seq<Seq<char>>)
    requires
        0 <= n <= items.len(),
        enum_items(items.take(n), key, allowed) is Err,
    ensures
        enum_items(items, key, allowed) == enum_items(items.take(n), key, allowed),
    decreases items.len() - n,
{
    if n < items.len() {
        assert(items.take(n + 1).drop_last() =~= items.take(n));
        lemma_enum_items_error(items, n + 1, key, allowed);
    } else {
        assert(items.take(n) =~= items);
    }
}

/// The entry at `id`, or the first one.
pub open spec fn enum_at(values: Seq<Seq<char>>, id: int) -> Seq<char> {
    if 0 <= id < values.len() {
        values[id]
    } else {
        values[0]
    }
}

/// The entry at `id`, or the first one; an error for an empty list.
pub fn enum_get_at<'a>(values: &'a Vec<String>, key: &str, id: usize) -> (r: Result<&'a str, SliceError>)
    ensures
        values@.len() == 0 ==> (r matches Err(e) && message_of(e) == key@ + " must not be empty"@),
        values@.len() > 0 ==> (r matches Ok(t) && t@ == enum_at(string_views(values@), id as int)),
{
    if id < values.len() {
        Ok(values[id].as_str())
    } else if values.len() > 0 {
        Ok(values[0].as_str())
    } else {
        proof {
            reveal_strlit(" must not be empty");
        }
        Err(invalid(key, " must not be empty"))
    }
}

/// The allowed extruder types.
pub open spec fn extruder_types() -> Seq<Seq<char>> {
    seq!["Direct Drive"@, "Bowden"@]
}

/// The allowed nozzle volume types.
pub open spec fn nozzle_volume_types() -> Seq<Seq<char>> {
    seq!["Standard"@, "High Flow"@]
}

/// Some extruder from the second on differs from the first in its type or
/// its nozzle volume type.
pub open spec fn extruders_differ(
    types: Seq<Seq<char>>,
    volumes: Seq<Seq<char>>,
    nozzle_count: nat,
) -> bool {
    exists|i: int|
        1 <= i < nozzle_count && (enum_at(types, i) != types[0] || enum_at(volumes, i)
            != volumes[0])
}

/// What `is_using_different_extruders` gives.
pub open spec fn different_extruders_spec(values: Map<Seq<char>, Json>, nozzle_count: nat) -> Result<
    bool,
    Seq<char>,
> {
    if nozzle_count <= 1 {
        Ok(false)
    } else {
        match enum_vector_spec(opt_get(values, "extruder_type"@), "extruder_type"@, extruder_types()) {
            Err(m) => Err(m),
            Ok(None) => Ok(false),
            Ok(Some(types)) => match enum_vector_spec(
                opt_get(values, "nozzle_volume_type"@),
                "nozzle_volume_type"@,
                nozzle_volume_types(),
            ) {
                Err(m) => Err(m),
                Ok(None) => Ok(false),
                Ok(Some(volumes)) => Ok(extruders_differ(types, volumes, nozzle_count)),
            },
        }
    }
}

/// Enum items, when they pass, are as many as the items.
proof fn lemma_enum_items_len(items: Seq<Json>, key: Seq<char>, allowed: Seq<Seq<char>>)
    ensures
        enum_items(items, key, allowed) matches Ok(v) ==> v.len() == items.len(),
    decreases items.len(),
{
    if items.len() > 0 {
        lemma_enum_items_len(items.drop_last(), key, allowed);
    }
}

impl SliceOptions {
    /// Whether the extruders differ in type or nozzle volume type; false
    /// for a single nozzle or when either list is unset. `nozzle_count` is
    /// the number of nozzle diameters.
    pub fn is_using_different_extruders(&self, nozzle_count: usize) -> (r: Result<bool, SliceError>)
        ensures
            match different_extruders_spec(self@, nozzle_count as nat) {
                Ok(b) => r == Ok::<bool, SliceError>(b),
                Err(m) => r matches Err(e) && message_of(e) == m,
            },
    {
        if nozzle_count <= 1 {
            return Ok(false);
        }
        let type_names: [&str; 2] = ["Direct Drive", "Bowden"];
        let volume_names: [&str; 2] = ["Standard", "High Flow"];
        assert(type_names@.map_values(|a: &str| a@) =~= extruder_types());
        assert(volume_names@.map_values(|a: &str| a@) =~= nozzle_volume_types());
        let types = match optional_enum_vector(
            self.values().get("extruder_type"),
            "extruder_type",
            &type_names,
        ) {
            Err(e) => return Err(e),
            Ok(None) => return Ok(false),
            Ok(Some(v)) => v,
        };
        let volumes = match optional_enum_vector(
            self.values().get("nozzle_volume_type"),
            "nozzle_volume_type",
            &volume_names,
        ) {
            Err(e) => return Err(e),
            Ok(None) => return Ok(false),
            Ok(Some(v)) => v,
        };
        let ghost tv = string_views(types@);
        let ghost vv = string_views(volumes@);
        assert(different_extruders_spec(self@, nozzle_count as nat) == Ok::<bool, Seq<char>>(
            extruders_differ(tv, vv, nozzle_count as nat),
        ));
        proof {
            let tj = self@["extruder_type"@]->Array_0;
            let vj = self@["nozzle_volume_type"@]->Array_0;
            lemma_enum_items_len(tj, "extruder_type"@, extruder_types());
            lemma_enum_items_len(vj, "nozzle_volume_type"@, nozzle_volume_types());
        }
        let first_type = match enum_get_at(&types, "extruder_type", 0) {
            Ok(t) => t,
            Err(e) => return Err(e),
        };
        let first_volume = match enum_get_at(&volumes, "nozzle_volume_type", 0) {
            Ok(t) => t,
            Err(e) => return Err(e),
        };
        let mut index: usize = 1;
        while index < nozzle_count
            invariant
                1 <= index <= nozzle_count,
                tv == string_views(types@),
                vv == string_views(volumes@),
                tv.len() > 0,
                vv.len() > 0,
                first_type@ == tv[0],
                first_volume@ == vv[0],
                different_extruders_spec(self@, nozzle_count as nat) == Ok::<bool, Seq<char>>(
                    extruders_differ(tv, vv, nozzle_count as nat),
                ),
                forall|i: int|
                    1 <= i < index ==> !(enum_at(tv, i) != tv[0] || enum_at(vv, i) != vv[0]),
            decreases nozzle_count - index,
        {
            let t = match enum_get_at(&types, "extruder_type", index) {
                Ok(t) => t,
                Err(e) => return Err(e),
            };
            let v = match enum_get_at(&volumes, "nozzle_volume_type", index) {
                Ok(v) => v,
                Err(e) => return Err(e),
            };
            if !str_eq(t, first_type) || !str_eq(v, first_volume) {
                assert(enum_at(tv, index as int) != tv[0] || enum_at(vv, index as int) != vv[0]);
                assert(extruders_differ(tv, vv, nozzle_count as nat));
                return Ok(true);
            }
            index = index + 1;
        }
        Ok(false)
    }
}


/// With both lists set and more than one nozzle, the extruders differ
/// exactly when some extruder after the first, among the first
/// `nozzle_count`, has another type or another nozzle volume type than the
/// first (a list shorter than the nozzles repeats its first entry, so only
/// listed entries can differ): a difference in either one alone is enough.
pub proof fn lemma_extruders_differ_by_type_or_volume(
    values: Map<Seq<char>, Json>,
    nozzle_count: nat,
    types: Seq<Seq<char>>,
    volumes: Seq<Seq<char>>,
)
    requires
        nozzle_count > 1,
        enum_vector_spec(opt_get(values, "extruder_type"@), "extruder_type"@, extruder_types())
            == Ok::<Option<Seq<Seq<char>>>, Seq<char>>(Some(types)),
        enum_vector_spec(
            opt_get(values, "nozzle_volume_type"@),
            "nozzle_volume_type"@,
            nozzle_volume_types(),
        ) == Ok::<Option<Seq<Seq<char>>>, Seq<char>>(Some(volumes)),
    ensures
        (exists|i: int| 1 <= i < nozzle_count && i < volumes.len() && #[trigger] volumes[i] != volumes[0])
            ==> different_extruders_spec(values, nozzle_count) == Ok::<bool, Seq<char>>(true),
        (exists|i: int| 1 <= i < nozzle_count && i < types.len() && #[trigger] types[i] != types[0])
            ==> different_extruders_spec(values, nozzle_count) == Ok::<bool, Seq<char>>(true),
        (forall|i: int| 1 <= i < nozzle_count && i < types.len() ==> #[trigger] types[i] == types[0])
            && (forall|i: int|
            1 <= i < nozzle_count && i < volumes.len() ==> #[trigger] volumes[i] == volumes[0])
            ==> different_extruders_spec(values, nozzle_count) == Ok::<bool, Seq<char>>(false),
{
    if exists|i: int| 1 <= i < nozzle_count && i < volumes.len() && #[trigger] volumes[i] != volumes[0] {
        let i = choose|i: int| 1 <= i < nozzle_count && i < volumes.len() && #[trigger] volumes[i] != volumes[0];
        assert(enum_at(volumes, i) != volumes[0]);
    }
    if exists|i: int| 1 <= i < nozzle_count && i < types.len() && #[trigger] types[i] != types[0] {
        let i = choose|i: int| 1 <= i < nozzle_count && i < types.len() && #[trigger] types[i] != types[0];
        assert(enum_at(types, i) != types[0]);
    }
    if (forall|i: int| 1 <= i < nozzle_count && i < types.len() ==> #[trigger] types[i] == types[0])
        && (forall|i: int| 1 <= i < nozzle_count && i < volumes.len() ==> #[trigger] volumes[i] == volumes[0]) {
        assert forall|i: int| 1 <= i < nozzle_count implies !(enum_at(types, i) != types[0]
            || enum_at(volumes, i) != volumes[0]) by {
            if i < types.len() {
                assert(types[i] == types[0]);
            }
            if i < volumes.len() {
                assert(volumes[i] == volumes[0]);
            }
        }
    }
}

} // verus!
