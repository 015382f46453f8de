//! Chamber temperature control, and the boolean list options it reads.
use vstd::prelude::*;
use crate::error::{SliceError, invalid};
use crate::json::{Json, JsonValue, models};
use crate::slice_options::agrees;
use crate::text::{split_at_chars, list_separators, trim, trim_chars, chars_equal, split_list};

use crate::slice_options::{SliceOptions, bool_option_spec};
use crate::bed_temperature::seq_max;
use crate::error::message_of;

verus! {

/// Whether the chamber is heated, and to which temperature.
#[derive(Clone, Copy, Debug)]
pub struct ChamberTemperatureControl {
    temperature: Option<u32>,
}

impl ChamberTemperatureControl {
    pub closed spec fn temperature_spec(self) -> Option<u32> {
        self.temperature
    }

    /// No chamber heating.
    pub fn disabled() -> (r: Self)
        ensures
            r.temperature_spec() is None,
    {
        Self { temperature: None }
    }

    /// Chamber heating to `temperature`.
    pub fn enabled(temperature: u32) -> (r: Self)
        ensures
            r.temperature_spec() == Some(temperature),
    {
        Self { temperature: Some(temperature) }
    }

    /// The chamber temperature, when heated.
    pub fn temperature(self) -> (r: Option<u32>)
        ensures
            r == self.temperature_spec(),
    {
        self.temperature
    }
}

/// The trimmed pieces of a `;`/`,` separated list.
pub open spec fn trimmed_pieces(text: Seq<char>) -> Seq<Seq<char>> {
    let pieces = split_at_chars(text, list_separators());
    Seq::new(pieces.len(), |i: int| trim(pieces[i]))
}

/// The boolean a lowercase word names.
pub open spec fn bool_word(word: Seq<char>) -> Option<bool> {
    if word == "true"@ {
        Some(true)
    } else if word == "false"@ {
        Some(false)
    } else {
        None
    }
}

/// What `parse_bool_text` gives.
pub open spec fn bool_text_spec(key: Seq<char>, text: Seq<char>) -> Result<Seq<bool>, Seq<char>> {
    let parts = trimmed_pieces(text);
    if exists|i: int| 0 <= i < parts.len() && #[trigger] parts[i].len() == 0 {
        Err(key + " must not be empty"@)
    } else if exists|i: int| 0 <= i < parts.len() && #[trigger] bool_word(parts[i]) is None {
        Err(key + " must contain lowercase boolean values"@)
    } else {
        Ok(Seq::new(parts.len(), |i: int| bool_word(parts[i])->0))
    }
}

fn word_bool(word: &Vec<char>) -> (r: Option<bool>)
    ensures
        r == bool_word(word@),
{
    let t: Vec<char> = vec!['t', 'r', 'u', 'e'];
    let f: Vec<char> = vec!['f', 'a', 'l', 's', 'e'];
    proof {
        reveal_strlit("true");
        reveal_strlit("false");
        assert(t@ =~= "true"@);
        assert(f@ =~= "false"@);
    }
    if chars_equal(word, &t) {
        Some(true)
    } else if chars_equal(word, &f) {
        Some(false)
    } else {
        None
    }
}

/// Reads a `;`/`,` separated list of `true` and `false`.
pub fn parse_bool_text(key: &str, text: &str) -> (r: Result<Vec<bool>, SliceError>)
    ensures
        match bool_text_spec(key@, text@) {
            Ok(s) => r matches Ok(v) && v@ == s,
            Err(m) => agrees(r, Err(m)),
        },
{
    let pieces = split_list(text);
    let ghost parts = trimmed_pieces(text@);
    let mut trimmed: Vec<Vec<char>> = Vec::new();
    let mut i: usize = 0;
    while i < pieces.len()
        invariant
            i <= pieces@.len(),
            parts == trimmed_pieces(text@),
            pieces@.len() == parts.len(),
            forall|j: int|
                0 <= j < pieces@.len() ==> #[trigger] pieces@[j]@ == split_at_chars(
                    text@,
                    list_separators(),
                )[j],
            trimmed@.len() == i,
            forall|j: int| 0 <= j < i ==> #[trigger] trimmed@[j]@ == parts[j],
            forall|j: int| 0 <= j < i ==> #[trigger] parts[j].len() != 0,
        decreases pieces@.len() - i,
    {
        let t = trim_chars(&pieces[i]);
        if t.len() == 0 {
            assert(parts[i as int].len() == 0);
            return Err(invalid(key, " must not be empty"));
        }
        trimmed.push(t);
        i = i + 1;
    }
    let mut out: Vec<bool> = Vec::new();
    let mut k: usize = 0;
    while k < trimmed.len()
        invariant
            k <= trimmed@.len(),
            trimmed@.len() == parts.len(),
            parts == trimmed_pieces(text@),
            forall|j: int| 0 <= j < trimmed@.len() ==> #[trigger] trimmed@[j]@ == parts[j],
            forall|j: int| 0 <= j < parts.len() ==> #[trigger] parts[j].len() != 0,
            out@.len() == k,
            forall|j: int|
                0 <= j < k ==> #[trigger] bool_word(parts[j]) == Some(out@[j]),
        decreases trimmed@.len() - k,
    {
        match word_bool(&trimmed[k]) {
            Some(b) => out.push(b),
            None => {
                assert(bool_word(parts[k as int]) is None);
                return Err(invalid(key, " must contain lowercase boolean values"));
            },
        }
        k = k + 1;
    }
    assert(out@ =~= Seq::new(parts.len(), |i: int| bool_word(parts[i])->0));
    Ok(out)
}

/// Every item is a boolean.
pub open spec fn all_bools(items: Seq<Json>) -> bool {
    forall|i: int| 0 <= i < items.len() ==> #[trigger] items[i] is Bool
}

/// What `parse_bool_vector` gives.
pub open spec fn bool_vector_spec(key: Seq<char>, value: Json) -> Result<Seq<bool>, Seq<char>> {
    match value {
        Json::Bool(b) => Ok(seq![b]),
        Json::Str(text) => bool_text_spec(key, text),
        Json::Array(items) => if items.len() == 0 {
            Err(key + " must not be empty"@)
        } else if !all_bools(items) {
            Err(key + " must contain boolean values"@)
        } else {
            Ok(Seq::new(items.len(), |i: int| items[i]->Bool_0))
        },
        _ => Err(key + " must be a boolean or boolean list"@),
    }
}

/// A boolean list that reads is never empty.
pub proof fn lemma_bool_vector_nonempty(key: Seq<char>, value: Json)
    ensures
        bool_vector_spec(key, value) matches Ok(v) ==> v.len() > 0,
{
    if let Json::Str(text) = value {
        crate::text::lemma_split_nonempty(text, list_separators());
    }
}

/// A boolean, a `;`/`,` separated text of booleans, or an array of them.
pub fn parse_bool_vector(key: &str, value: &JsonValue) -> (r: Result<Vec<bool>, SliceError>)
    ensures
        match bool_vector_spec(key@, value.model()) {
            Ok(s) => r matches Ok(v) && v@ == s,
            Err(m) => agrees(r, Err(m)),
        },
{
    match value {
        JsonValue::Bool(b) => {
            let v = vec![*b];
            assert(v@ =~= seq![*b]);
            Ok(v)
        },
        JsonValue::String(text) => parse_bool_text(key, text.as_str()),
        JsonValue::Array(items) => {
            proof {
                crate::json::lemma_array_model(items);
            }
            if items.len() == 0 {
                return Err(invalid(key, " must not be empty"));
            }
            let ghost m = models(items@);
            let mut out: Vec<bool> = Vec::new();
            let mut i: usize = 0;
            while i < items.len()
                invariant
                    i <= items@.len(),
                    m == models(items@),
                    value.model() == Json::Array(m),
                    out@.len() == i,
                    forall|j: int| 0 <= j < i ==> #[trigger] m[j] is Bool && out@[j] == m[j]->Bool_0,
                decreases items@.len() - i,
            {
                match items[i].as_bool() {
                    Some(b) => out.push(b),
                    None => {
                        assert(!(m[i as int] is Bool));
                        return Err(invalid(key, " must contain boolean values"));
                    },
                }
                i = i + 1;
            }
            assert(out@ =~= Seq::new(m.len(), |i: int| m[i]->Bool_0));
            Ok(out)
        },
        _ => Err(invalid(key, " must be a boolean or boolean list")),
    }
}

/// A list of values with its error as message text.
pub open spec fn values_model(r: Result<Vec<u32>, SliceError>) -> Result<Seq<u32>, Seq<char>> {
    match r {
        Ok(v) => Ok(v@),
        Err(e) => Err(message_of(e)),
    }
}

/// What `chamber_temperature_values` gives: the caller's reading of the
/// `chamber_temperature` list when it is set, else a single zero.
pub open spec fn chamber_values_spec(
    values: Map<Seq<char>, Json>,
    parsed_temperatures: Result<Seq<u32>, Seq<char>>,
) -> Result<Seq<u32>, Seq<char>> {
    if values.contains_key("chamber_temperature"@) {
        parsed_temperatures
    } else {
        Ok(seq![0u32])
    }
}

/// What `chamber_temperature_control` gives: off unless chamber control is
/// supported (by default it is), activated for some filament, and the
/// highest chamber temperature (0 when unset) is above zero.
pub open spec fn chamber_control_spec(
    values: Map<Seq<char>, Json>,
    parsed_temperatures: Result<Seq<u32>, Seq<char>>,
) -> Result<Option<u32>, Seq<char>> {
    match bool_option_spec(values, "support_chamber_temp_control"@, true) {
        Err(e) => Err(e),
        Ok(false) => Ok(None),
        Ok(true) => {
            let activate = if values.contains_key("activate_chamber_temp_control"@) {
                bool_vector_spec(
                    "activate_chamber_temp_control"@,
                    values["activate_chamber_temp_control"@],
                )
            } else {
                Ok(seq![false])
            };
            match activate {
                Err(e) => Err(e),
                Ok(a) => {
                    let temperatures = if values.contains_key("chamber_temperature"@) {
                        parsed_temperatures
                    } else {
                        Ok(seq![0u32])
                    };
                    match temperatures {
                        Err(e) => Err(e),
                        Ok(t) => {
                            let temperature = seq_max(t);
                            if a.contains(true) && temperature > 0 {
                                Ok(Some(temperature))
                            } else {
                                Ok(None)
                            }
                        },
                    }
                },
            }
        },
    }
}

/// Whether some entry is `true`.
fn any_true(values: &Vec<bool>) -> (r: bool)
    ensures
        r == values@.contains(true),
{
    let mut i: usize = 0;
    while i < values.len()
        invariant
            i <= values@.len(),
            forall|j: int| 0 <= j < i ==> !values@[j],
        decreases values@.len() - i,
    {
        if values[i] {
            return true;
        }
        i = i + 1;
    }
    false
}

impl SliceOptions {
    /// Each filament's chamber temperature: the caller's reading of the
    /// `chamber_temperature` list, used only when that option is set, else
    /// a single zero.
    pub fn chamber_temperature_values(&self, parsed_temperatures: Result<Vec<u32>, SliceError>) -> (r:
        Result<Vec<u32>, SliceError>)
        ensures
            match chamber_values_spec(self@, values_model(parsed_temperatures)) {
                Ok(v) => r matches Ok(w) && w@ == v,
                Err(m) => r matches Err(e) && message_of(e) == m,
            },
    {
        if self.values().contains_key("chamber_temperature") {
            parsed_temperatures
        } else {
            let v = vec![0u32];
            assert(v@ =~= seq![0u32]);
            Ok(v)
        }
    }

    /// The highest chamber temperature of the filaments.
    pub fn overall_chamber_temperature(&self, parsed_temperatures: Result<Vec<u32>, SliceError>) -> (r:
        Result<u32, SliceError>)
        requires
            parsed_temperatures matches Ok(v) ==> v@.len() > 0,
        ensures
            match chamber_values_spec(self@, values_model(parsed_temperatures)) {
                Ok(v) => r == Ok::<u32, SliceError>(seq_max(v)),
                Err(m) => r matches Err(e) && message_of(e) == m,
            },
    {
        let values = match self.chamber_temperature_values(parsed_temperatures) {
            Ok(v) => v,
            Err(e) => return Err(e),
        };
        Ok(crate::bed_temperature::BedTemperatureFormula::HighestTemp.select(values.as_slice()))
    }

    /// The chamber temperature control. `parsed_temperatures` is the
    /// caller's reading of the `chamber_temperature` list (each filament's
    /// temperature), used only when that option is set.
    pub fn chamber_temperature_control(
        &self,
        parsed_temperatures: Result<Vec<u32>, SliceError>,
    ) -> (r: Result<ChamberTemperatureControl, SliceError>)
        requires
            parsed_temperatures matches Ok(v) ==> v@.len() > 0,
        ensures
            match chamber_control_spec(self@, values_model(parsed_temperatures)) {
                Ok(t) => r matches Ok(c) && c.temperature_spec() == t,
                Err(m) => r matches Err(e) && message_of(e) == m,
            },
    {
        match self.bool_option("support_chamber_temp_control", true) {
            Err(e) => return Err(e),
            Ok(false) => return Ok(ChamberTemperatureControl::disabled()),
            Ok(true) => {},
        }
        let activate = match self.values().get("activate_chamber_temp_control") {
            Some(value) => match parse_bool_vector("activate_chamber_temp_control", value) {
                Ok(v) => v,
                Err(e) => return Err(e),
            },
            None => {
                let v = vec![false];
                assert(v@ =~= seq![false]);
                v
            },
        };
        let temperatures = if self.values().contains_key("chamber_temperature") {
            match parsed_temperatures {
                Ok(v) => v,
                Err(e) => return Err(e),
            }
        } else {
            let v = vec![0u32];
            assert(v@ =~= seq![0u32]);
            v
        };
        let temperature = crate::bed_temperature::BedTemperatureFormula::HighestTemp.select(
            temperatures.as_slice(),
        );
        if any_true(&activate) && temperature > 0 {
            Ok(ChamberTemperatureControl::enabled(temperature))
        } else {
            Ok(ChamberTemperatureControl::disabled())
        }
    }
}

} // verus!
