//! Custom G-code options: text templates, empty by default.
use vstd::prelude::*;
use crate::error::{SliceError, invalid};
use crate::json::{Json, JsonValue, json_as_str, models};
use crate::slice_options::SliceOptions;
use crate::extruder_index::{opt_get, all_strings};
use crate::error::message_of;

verus! {

/// What a text option gives: empty when absent, the text when it is one.
pub open spec fn text_option_spec(values: Map<Seq<char>, Json>, key: Seq<char>) -> Result<
    Seq<char>,
    Seq<char>,
> {
    match opt_get(values, key) {
        None => Ok(Seq::empty()),
        Some(j) => match json_as_str(j) {
            Some(s) => Ok(s),
            None => Err(key + " must be a string"@),
        },
    }
}

/// What a per-filament text option gives: empty when absent, the text, or
/// the first text of an array of texts (empty for an empty array).
pub open spec fn text_list_option_spec(values: Map<Seq<char>, Json>, key: Seq<char>) -> Result<
    Seq<char>,
    Seq<char>,
> {
    match opt_get(values, key) {
        None => Ok(Seq::empty()),
        Some(Json::Str(s)) => Ok(s),
        Some(Json::Array(items)) => if !all_strings(items) {
            Err(key + " must be a string or string array"@)
        } else if items.len() == 0 {
            Ok(Seq::empty())
        } else {
            Ok(items[0]->Str_0)
        },
        Some(_) => Err(key + " must be a string or string array"@),
    }
}

/// A text result given by the text's view.
pub open spec fn agrees_str(r: Result<&str, SliceError>, s: Result<Seq<char>, Seq<char>>) -> bool {
    match (r, s) {
        (Ok(a), Ok(b)) => a@ == b,
        (Err(e), Err(m)) => message_of(e) == m,
        _ => false,
    }
}

impl SliceOptions {
    /// A text option, empty when absent.
    pub fn text_option(&self, key: &str) -> (r: Result<&str, SliceError>)
        ensures
            agrees_str(r, text_option_spec(self@, key@)),
    {
        proof {
            reveal_strlit("");
        }
        match self.values().get(key) {
            None => {
                assert(""@ =~= Seq::<char>::empty());
                Ok("")
            },
            Some(value) => match value.as_str() {
                Some(text) => Ok(text),
                None => Err(invalid(key, " must be a string")),
            },
        }
    }

    /// A per-filament text option: a text, or the first of an array of
    /// texts; empty when absent.
    pub fn text_list_option(&self, key: &str) -> (r: Result<&str, SliceError>)
        ensures
            agrees_str(r, text_list_option_spec(self@, key@)),
    {
        proof {
            reveal_strlit("");
            assert(""@ =~= Seq::<char>::empty());
        }
        match self.values().get(key) {
            None => Ok(""),
            Some(JsonValue::String(text)) => Ok(text.as_str()),
            Some(JsonValue::Array(items)) => {
                proof {
                    crate::json::lemma_array_model(items);
                }
                let ghost m = models(items@);
                let mut i: usize = 0;
                while i < items.len()
                    invariant
                        i <= items@.len(),
                        m == models(items@),
                        opt_get(self@, key@) == Some(Json::Array(m)),
                        forall|j: int| 0 <= j < i ==> #[trigger] m[j] is Str,
                    decreases items@.len() - i,
                {
                    if !items[i].is_string() {
                        assert(!(m[i as int] is Str));
                        return Err(invalid(key, " must be a string or string array"));
                    }
                    i = i + 1;
                }
                if items.len() == 0 {
                    Ok("")
                } else {
                    match items[0].as_str() {
                        Some(text) => Ok(text),
                        None => Ok(""),
                    }
                }
            },
            Some(_) => Err(invalid(key, " must be a string or string array")),
        }
    }

    pub fn before_layer_change_gcode(&self) -> (r: Result<&str, SliceError>)
        ensures
            agrees_str(r, text_option_spec(self@, "before_layer_change_gcode"@)),
    {
        self.text_option("before_layer_change_gcode")
    }

    pub fn change_extrusion_role_gcode(&self) -> (r: Result<&str, SliceError>)
        ensures
            agrees_str(r, text_option_spec(self@, "change_extrusion_role_gcode"@)),
    {
        self.text_option("change_extrusion_role_gcode")
    }

    pub fn change_filament_gcode(&self) -> (r: Result<&str, SliceError>)
        ensures
            agrees_str(r, text_option_spec(self@, "change_filament_gcode"@)),
    {
        self.text_option("change_filament_gcode")
    }

    pub fn process_change_extrusion_role_gcode(&self) -> (r: Result<&str, SliceError>)
        ensures
            agrees_str(r, text_option_spec(self@, "process_change_extrusion_role_gcode"@)),
    {
        self.text_option("process_change_extrusion_role_gcode")
    }

    pub fn filament_change_extrusion_role_gcode(&self) -> (r: Result<&str, SliceError>)
        ensures
            agrees_str(r, text_list_option_spec(self@, "filament_change_extrusion_role_gcode"@)),
    {
        self.text_list_option("filament_change_extrusion_role_gcode")
    }

    pub fn filament_end_gcode(&self) -> (r: Result<&str, SliceError>)
        ensures
            agrees_str(r, text_list_option_spec(self@, "filament_end_gcode"@)),
    {
        self.text_list_option("filament_end_gcode")
    }

    pub fn filament_start_gcode(&self) -> (r: Result<&str, SliceError>)
        ensures
            agrees_str(r, text_list_option_spec(self@, "filament_start_gcode"@)),
    {
        self.text_list_option("filament_start_gcode")
    }

    pub fn file_start_gcode(&self) -> (r: Result<&str, SliceError>)
        ensures
            agrees_str(r, text_option_spec(self@, "file_start_gcode"@)),
    {
        self.text_option("file_start_gcode")
    }

    pub fn layer_change_gcode(&self) -> (r: Result<&str, SliceError>)
        ensures
            agrees_str(r, text_option_spec(self@, "layer_change_gcode"@)),
    {
        self.text_option("layer_change_gcode")
    }

    pub fn machine_end_gcode(&self) -> (r: Result<&str, SliceError>)
        ensures
            agrees_str(r, text_option_spec(self@, "machine_end_gcode"@)),
    {
        self.text_option("machine_end_gcode")
    }

    pub fn machine_start_gcode(&self) -> (r: Result<&str, SliceError>)
        ensures
            agrees_str(r, text_option_spec(self@, "machine_start_gcode"@)),
    {
        self.text_option("machine_start_gcode")
    }

    pub fn time_lapse_gcode(&self) -> (r: Result<&str, SliceError>)
        ensures
            agrees_str(r, text_option_spec(self@, "time_lapse_gcode"@)),
    {
        self.text_option("time_lapse_gcode")
    }
}

} // verus!
