//! Filament type and vendor queries.
use vstd::prelude::*;
use crate::error::{SliceError, invalid};
use crate::json::{Json, JsonValue, json_as_array, json_as_bool, json_as_str, models};
use crate::slice_options::{SliceOptions, agrees};
use crate::text::{owned, str_eq};
use crate::extruder_index::{
    opt_get, all_strings, strings_of, collect_strings, get_at_or_first, agrees_text,
};
use crate::filament_override::{opt_model, string_views};

verus! {

/// A filament type and the name it is displayed with.
#[derive(Debug)]
pub struct FilamentTypeDisplay {
    pub value: String,
    pub displayed: String,
}

/// What `first_string_entry` gives.
pub open spec fn first_string_spec(value: Option<Json>, key: Seq<char>) -> Result<
    Seq<char>,
    Seq<char>,
> {
    match value {
        None => Ok(Seq::empty()),
        Some(v) => match json_as_array(v) {
            None => Err(key + " must be a string vector"@),
            Some(items) => if items.len() == 0 {
                Ok(Seq::empty())
            } else {
                match json_as_str(items[0]) {
                    Some(s) => Ok(s),
                    None => Err(key + " must contain strings"@),
                }
            },
        },
    }
}

/// The first entry of a string vector, empty when absent.
pub fn first_string_entry(value: Option<&JsonValue>, key: &str) -> (r: Result<String, SliceError>)
    ensures
        agrees_text(r, first_string_spec(opt_model(value), key@)),
{
    let value = match value {
        None => {
            return Ok(String::new());
        },
        Some(v) => v,
    };
    let items = match value.as_array() {
        Some(items) => items,
        None => {
            return Err(invalid(key, " must be a string vector"));
        },
    };
    if items.len() == 0 {
        return Ok(String::new());
    }
    assert(models(items@)[0] == items@[0].model());
    match items[0].as_str() {
        Some(text) => Ok(owned(text)),
        None => Err(invalid(key, " must contain strings")),
    }
}

/// What `non_empty_string_entries` gives.
pub open spec fn non_empty_strings_spec(value: Option<Json>, key: Seq<char>) -> Result<
    Option<Seq<Seq<char>>>,
    Seq<char>,
> {
    match value {
        None => Ok(None),
        Some(v) => match json_as_array(v) {
            None => Err(key + " must be a string vector"@),
            Some(items) => if items.len() == 0 {
                Err(key + " must not be empty"@)
            } else if !all_strings(items) {
                Err(key + " must contain strings"@)
            } else {
                Ok(Some(strings_of(items)))
            },
        },
    }
}

/// The entries of a non-empty string vector.
pub fn non_empty_string_entries(value: Option<&JsonValue>, key: &str) -> (r: Result<
    Option<Vec<String>>,
    SliceError,
>)
    ensures
        match non_empty_strings_spec(opt_model(value), key@) {
            Ok(None) => r matches Ok(None),
            Ok(Some(s)) => r matches Ok(Some(v)) && string_views(v@) == s,
            Err(m) => agrees(r, Err(m)),
        },
{
    let value = match value {
        None => {
            return Ok(None);
        },
        Some(v) => v,
    };
    let items = match value.as_array() {
        Some(items) => items,
        None => {
            return Err(invalid(key, " must be a string vector"));
        },
    };
    if items.len() == 0 {
        return Err(invalid(key, " must not be empty"));
    }
    match collect_strings(items) {
        Some(strings) => Ok(Some(strings)),
        None => Err(invalid(key, " must contain strings")),
    }
}

/// The value at `id`, or the first one when `id` is past the end.
pub fn source_get_at<'a>(values: &'a Vec<JsonValue>, key: &str, id: usize) -> (r: Result<
    &'a JsonValue,
    SliceError,
>)
    ensures
        values@.len() == 0 ==> agrees(r, Err(key@ + " must not be empty"@)),
        values@.len() > 0 ==> (r matches Ok(v) && v.model() == get_at_or_first(
            models(values@),
            id as int,
        )),
{
    if id < values.len() {
        Ok(&values[id])
    } else if values.len() > 0 {
        Ok(&values[0])
    } else {
        Err(invalid(key, " must not be empty"))
    }
}

/// What `optional_string_get_at` gives.
pub open spec fn string_get_at_spec(value: Option<Json>, key: Seq<char>, id: int) -> Result<
    Option<Seq<char>>,
    Seq<char>,
> {
    match value {
        None => Ok(None),
        Some(v) => match json_as_array(v) {
            None => Err(key + " must be a string vector"@),
            Some(items) => if items.len() == 0 {
                Err(key + " must not be empty"@)
            } else {
                match json_as_str(get_at_or_first(items, id)) {
                    Some(s) => Ok(Some(s)),
                    None => Err(key + " must contain strings"@),
                }
            },
        },
    }
}

/// What `optional_bool_get_at` gives.
pub open spec fn bool_get_at_spec(value: Option<Json>, key: Seq<char>, id: int) -> Result<
    Option<bool>,
    Seq<char>,
> {
    match value {
        None => Ok(None),
        Some(v) => match json_as_array(v) {
            None => Err(key + " must be a bool vector"@),
            Some(items) => if items.len() == 0 {
                Err(key + " must not be empty"@)
            } else {
                match json_as_bool(get_at_or_first(items, id)) {
                    Some(b) => Ok(Some(b)),
                    None => Err(key + " must contain bools"@),
                }
            },
        },
    }
}

/// The string at `id` (or the first) of an optional string vector.
pub fn optional_string_get_at(value: Option<&JsonValue>, key: &str, id: usize) -> (r: Result<
    Option<String>,
    SliceError,
>)
    ensures
        match string_get_at_spec(opt_model(value), key@, id as int) {
            Ok(None) => r matches Ok(None),
            Ok(Some(s)) => r matches Ok(Some(t)) && t@ == s,
            Err(m) => agrees(r, Err(m)),
        },
{
    let value = match value {
        None => {
            return Ok(None);
        },
        Some(v) => v,
    };
    let items = match value.as_array() {
        Some(items) => items,
        None => {
            return Err(invalid(key, " must be a string vector"));
        },
    };
    let item = source_get_at(items, key, id)?;
    match item.as_str() {
        Some(text) => Ok(Some(owned(text))),
        None => Err(invalid(key, " must contain strings")),
    }
}

/// The boolean at `id` (or the first) of an optional bool vector.
pub fn optional_bool_get_at(value: Option<&JsonValue>, key: &str, id: usize) -> (r: Result<
    Option<bool>,
    SliceError,
>)
    ensures
        agrees(r, bool_get_at_spec(opt_model(value), key@, id as int)),
{
    let value = match value {
        None => {
            return Ok(None);
        },
        Some(v) => v,
    };
    let items = match value.as_array() {
        Some(items) => items,
        None => {
            return Err(invalid(key, " must be a bool vector"));
        },
    };
    let item = source_get_at(items, key, id)?;
    match item.as_bool() {
        Some(b) => Ok(Some(b)),
        None => Err(invalid(key, " must contain bools")),
    }
}

/// A display pair.
pub fn display(value: &str, displayed: &str) -> (r: FilamentTypeDisplay)
    ensures
        r.value@ == value@,
        r.displayed@ == displayed@,
{
    FilamentTypeDisplay { value: owned(value), displayed: owned(displayed) }
}

/// The display pair of a support filament: by filament id first, then by
/// type.
pub open spec fn support_display_spec(filament_type: Seq<char>, filament_id: Option<Seq<char>>) -> (
    Seq<char>,
    Seq<char>,
) {
    if filament_id == Some("GFS00"@) {
        ("PLA-S"@, "Sup.PLA"@)
    } else if filament_id == Some("GFS01"@) {
        ("PA-S"@, "Sup.PA"@)
    } else if filament_type == "PLA"@ {
        ("PLA-S"@, "Sup.PLA"@)
    } else if filament_type == "PA"@ {
        ("PA-S"@, "Sup.PA"@)
    } else {
        (filament_type, filament_type)
    }
}

/// What `filament_type_display` gives.
pub open spec fn type_display_spec(values: Map<Seq<char>, Json>, id: int) -> Result<
    (Seq<char>, Seq<char>),
    Seq<char>,
> {
    match string_get_at_spec(opt_get(values, "filament_type"@), "filament_type"@, id) {
        Err(m) => Err(m),
        Ok(None) => Ok((Seq::empty(), Seq::empty())),
        Ok(Some(t)) => match bool_get_at_spec(
            opt_get(values, "filament_is_support"@),
            "filament_is_support"@,
            id,
        ) {
            Err(m) => Err(m),
            Ok(support) => if support != Some(true) {
                Ok((t, t))
            } else {
                match string_get_at_spec(opt_get(values, "filament_id"@), "filament_id"@, id) {
                    Err(m) => Err(m),
                    Ok(fid) => Ok(support_display_spec(t, fid)),
                }
            },
        },
    }
}

impl SliceOptions {
    /// The first filament vendor, empty when absent.
    pub fn filament_vendor(&self) -> (r: Result<String, SliceError>)
        ensures
            agrees_text(
                r,
                first_string_spec(opt_get(self@, "filament_vendor"@), "filament_vendor"@),
            ),
    {
        first_string_entry(self.values().get("filament_vendor"), "filament_vendor")
    }

    /// Whether every filament vendor is Bambu Lab.
    pub fn is_all_bbl_filament(&self) -> (r: Result<bool, SliceError>)
        ensures
            match non_empty_strings_spec(opt_get(self@, "filament_vendor"@), "filament_vendor"@) {
                Ok(None) => r == Ok::<bool, SliceError>(false),
                Ok(Some(s)) => r == Ok::<bool, SliceError>(
                    forall|i: int| 0 <= i < s.len() ==> #[trigger] s[i] == "Bambu Lab"@,
                ),
                Err(m) => agrees(r, Err(m)),
            },
    {
        match non_empty_string_entries(self.values().get("filament_vendor"), "filament_vendor")? {
            None => Ok(false),
            Some(vendors) => {
                let ghost s = string_views(vendors@);
                let mut i: usize = 0;
                while i < vendors.len()
                    invariant
                        i <= vendors@.len(),
                        s == string_views(vendors@),
                        non_empty_strings_spec(opt_get(self@, "filament_vendor"@), "filament_vendor"@)
                            == Ok::<Option<Seq<Seq<char>>>, Seq<char>>(Some(s)),
                        forall|j: int| 0 <= j < i ==> #[trigger] s[j] == "Bambu Lab"@,
                    decreases vendors@.len() - i,
                {
                    if !str_eq(vendors[i].as_str(), "Bambu Lab") {
                        assert(s[i as int] != "Bambu Lab"@);
                        return Ok(false);
                    }
                    i = i + 1;
                }
                Ok(true)
            },
        }
    }

    /// The first filament type, empty when absent.
    pub fn filament_type(&self) -> (r: Result<String, SliceError>)
        ensures
            agrees_text(r, first_string_spec(opt_get(self@, "filament_type"@), "filament_type"@)),
    {
        first_string_entry(self.values().get("filament_type"), "filament_type")
    }

    /// Whether some filament type is TPU.
    pub fn has_tpu_in_first_layer(&self) -> (r: Result<bool, SliceError>)
        ensures
            match non_empty_strings_spec(opt_get(self@, "filament_type"@), "filament_type"@) {
                Ok(None) => r == Ok::<bool, SliceError>(false),
                Ok(Some(s)) => r == Ok::<bool, SliceError>(s.contains("TPU"@)),
                Err(m) => agrees(r, Err(m)),
            },
    {
        match non_empty_string_entries(self.values().get("filament_type"), "filament_type")? {
            None => Ok(false),
            Some(types) => {
                let ghost s = string_views(types@);
                let mut i: usize = 0;
                while i < types.len()
                    invariant
                        i <= types@.len(),
                        s == string_views(types@),
                        non_empty_strings_spec(opt_get(self@, "filament_type"@), "filament_type"@)
                            == Ok::<Option<Seq<Seq<char>>>, Seq<char>>(Some(s)),
                        forall|j: int| 0 <= j < i ==> #[trigger] s[j] != "TPU"@,
                    decreases types@.len() - i,
                {
                    if str_eq(types[i].as_str(), "TPU") {
                        assert(s[i as int] == "TPU"@);
                        return Ok(true);
                    }
                    i = i + 1;
                }
                Ok(false)
            },
        }
    }

    /// The type of filament `id` and the name it is displayed with: support
    /// filaments show as `PLA-S` / `Sup.PLA` or `PA-S` / `Sup.PA`.
    pub fn filament_type_display(&self, id: usize) -> (r: Result<FilamentTypeDisplay, SliceError>)
        ensures
            match type_display_spec(self@, id as int) {
                Ok((v, d)) => r matches Ok(t) && t.value@ == v && t.displayed@ == d,
                Err(m) => r matches Err(e) && crate::error::message_of(e) == m,
            },
    {
        let values = self.values();
        let filament_type = match optional_string_get_at(
            values.get("filament_type"),
            "filament_type",
            id,
        )? {
            None => {
                proof {
                    reveal_strlit("");
                    assert(""@ =~= Seq::<char>::empty());
                }
                return Ok(display("", ""));
            },
            Some(t) => t,
        };
        let is_support = match optional_bool_get_at(
            values.get("filament_is_support"),
            "filament_is_support",
            id,
        )? {
            Some(b) => b,
            None => false,
        };
        if !is_support {
            return Ok(display(filament_type.as_str(), filament_type.as_str()));
        }
        let filament_id = optional_string_get_at(values.get("filament_id"), "filament_id", id)?;
        if let Some(fid) = &filament_id {
            if str_eq(fid.as_str(), "GFS00") {
                return Ok(display("PLA-S", "Sup.PLA"));
            }
            if str_eq(fid.as_str(), "GFS01") {
                return Ok(display("PA-S", "Sup.PA"));
            }
        }
        if str_eq(filament_type.as_str(), "PLA") {
            Ok(display("PLA-S", "Sup.PLA"))
        } else if str_eq(filament_type.as_str(), "PA") {
            Ok(display("PA-S", "Sup.PA"))
        } else {
            Ok(display(filament_type.as_str(), filament_type.as_str()))
        }
    }
}

} // verus!
