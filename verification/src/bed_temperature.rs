//! The bed temperature option keys of each bed type, and how a temperature
//! is chosen from the per-filament values.
use vstd::prelude::*;
use crate::error::{SliceError, invalid, message_of};
use crate::json::{Json, json_as_str};
use crate::slice_options::{SliceOptions, agrees};
use crate::text::str_eq;
use crate::extruder_index::opt_get;

verus! {

/// The bed type assumed when none is configured.
pub open spec fn default_bed_type() -> Seq<char> {
    "Cool Plate"@
}

/// A first-layer bed temperature.
#[derive(Clone, Copy, Debug)]
pub struct FirstLayerBedTemperature(u32);

impl FirstLayerBedTemperature {
    pub fn new(value: u32) -> (r: Self)
        ensures
            r.value_spec() == value,
    {
        Self(value)
    }

    pub closed spec fn value_spec(self) -> u32 {
        self.0
    }

    pub fn value(self) -> (r: u32)
        ensures
            r == self.value_spec(),
    {
        self.0
    }
}

/// The bed temperature of the layers after the first.
#[derive(Clone, Copy, Debug)]
pub struct OtherLayerBedTemperature(u32);

impl OtherLayerBedTemperature {
    pub fn new(value: u32) -> (r: Self)
        ensures
            r.value_spec() == value,
    {
        Self(value)
    }

    pub closed spec fn value_spec(self) -> u32 {
        self.0
    }

    pub fn value(self) -> (r: u32)
        ensures
            r == self.value_spec(),
    {
        self.0
    }
}

/// How the bed temperature is chosen from the filaments' values.
#[derive(Clone, Copy, Debug)]
pub enum BedTemperatureFormula {
    /// The first filament's value.
    FirstFilament,
    /// The highest value.
    HighestTemp,
}

/// The largest value of a non-empty sequence.
pub open spec fn seq_max(values: Seq<u32>) -> u32
    decreases values.len(),
{
    if values.len() <= 1 {
        values[0]
    } else {
        let rest = seq_max(values.drop_last());
        if values.last() > rest {
            values.last()
        } else {
            rest
        }
    }
}

/// The error about the bed type, with the reason after the key.
pub fn invalid_curr_bed_type(reason: &str) -> (e: SliceError)
    ensures
        message_of(e) == "curr_bed_type "@ + reason@,
{
    invalid("curr_bed_type ", reason)
}

/// The error about the bed temperature formula, with the reason after the
/// key.
pub fn invalid_bed_temperature_formula(reason: &str) -> (e: SliceError)
    ensures
        message_of(e) == "bed_temperature_formula "@ + reason@,
{
    invalid("bed_temperature_formula ", reason)
}

/// The messages of the bed type and formula errors.
proof fn lemma_bed_messages()
    ensures
        "curr_bed_type "@ + "has an invalid value"@ == "curr_bed_type has an invalid value"@,
        "curr_bed_type "@ + "must be a string"@ == "curr_bed_type must be a string"@,
        "bed_temperature_formula "@ + "has an invalid value"@
            == "bed_temperature_formula has an invalid value"@,
        "bed_temperature_formula "@ + "must be a string"@
            == "bed_temperature_formula must be a string"@,
{
    reveal_strlit("curr_bed_type ");
    reveal_strlit("bed_temperature_formula ");
    reveal_strlit("has an invalid value");
    reveal_strlit("must be a string");
    reveal_strlit("curr_bed_type has an invalid value");
    reveal_strlit("curr_bed_type must be a string");
    reveal_strlit("bed_temperature_formula has an invalid value");
    reveal_strlit("bed_temperature_formula must be a string");
    assert("curr_bed_type "@ + "has an invalid value"@ =~= "curr_bed_type has an invalid value"@);
    assert("curr_bed_type "@ + "must be a string"@ =~= "curr_bed_type must be a string"@);
    assert("bed_temperature_formula "@ + "has an invalid value"@
        =~= "bed_temperature_formula has an invalid value"@);
    assert("bed_temperature_formula "@ + "must be a string"@
        =~= "bed_temperature_formula must be a string"@);
}

/// What `BedTemperatureFormula::parse` gives.
pub open spec fn formula_spec(values: Map<Seq<char>, Json>) -> Result<
    BedTemperatureFormula,
    Seq<char>,
> {
    match opt_get(values, "bed_temperature_formula"@) {
        None => Ok(BedTemperatureFormula::HighestTemp),
        Some(j) => match json_as_str(j) {
            Some(s) => if s == "by_first_filament"@ {
                Ok(BedTemperatureFormula::FirstFilament)
            } else if s == "by_highest_temp"@ {
                Ok(BedTemperatureFormula::HighestTemp)
            } else {
                Err("bed_temperature_formula has an invalid value"@)
            },
            None => Err("bed_temperature_formula must be a string"@),
        },
    }
}

/// The value that a formula selects.
pub open spec fn select_spec(formula: BedTemperatureFormula, values: Seq<u32>) -> u32 {
    match formula {
        BedTemperatureFormula::FirstFilament => values[0],
        BedTemperatureFormula::HighestTemp => seq_max(values),
    }
}

impl BedTemperatureFormula {
    /// The formula that `bed_temperature_formula` names; by default the
    /// highest temperature.
    pub fn parse(options: &SliceOptions) -> (r: Result<Self, SliceError>)
        ensures
            agrees(r, formula_spec(options@)),
    {
        match options.values().get("bed_temperature_formula") {
            Some(value) => match value.as_str() {
                Some(text) => if str_eq(text, "by_first_filament") {
                    Ok(BedTemperatureFormula::FirstFilament)
                } else if str_eq(text, "by_highest_temp") {
                    Ok(BedTemperatureFormula::HighestTemp)
                } else {
                    {
                        proof {
                            lemma_bed_messages();
                        }
                        Err(invalid_bed_temperature_formula("has an invalid value"))
                    }
                },
                None => {
                    proof {
                        lemma_bed_messages();
                    }
                    Err(invalid_bed_temperature_formula("must be a string"))
                },
            },
            None => Ok(BedTemperatureFormula::HighestTemp),
        }
    }

    /// The temperature the formula selects from the filaments' values.
    pub fn select(self, values: &[u32]) -> (r: u32)
        requires
            values@.len() > 0,
        ensures
            r == select_spec(self, values@),
    {
        match self {
            BedTemperatureFormula::FirstFilament => values[0],
            BedTemperatureFormula::HighestTemp => {
                let mut best = values[0];
                let mut i: usize = 1;
                while i < values.len()
                    invariant
                        1 <= i <= values@.len(),
                        best == seq_max(values@.take(i as int)),
                    decreases values@.len() - i,
                {
                    assert(values@.take(i + 1).drop_last() =~= values@.take(i as int));
                    if values[i] > best {
                        best = values[i];
                    }
                    i = i + 1;
                }
                assert(values@.take(values@.len() as int) =~= values@);
                best
            },
        }
    }
}

/// The maximum is one of the values and no value exceeds it.
pub proof fn lemma_seq_max(values: Seq<u32>)
    requires
        values.len() > 0,
    ensures
        values.contains(seq_max(values)),
        forall|i: int| 0 <= i < values.len() ==> values[i] <= seq_max(values),
    decreases values.len(),
{
    if values.len() > 1 {
        lemma_seq_max(values.drop_last());
        let m = seq_max(values.drop_last());
        let j = choose|j: int| 0 <= j < values.drop_last().len() && values.drop_last()[j] == m;
        assert(values[j] == m);
        assert(values[values.len() - 1] == values.last());
        assert forall|i: int| 0 <= i < values.len() implies values[i] <= seq_max(values) by {
            if i < values.len() - 1 {
                assert(values[i] == values.drop_last()[i]);
            }
        }
    } else {
        assert(values[0] == seq_max(values));
    }
}

/// The bed type names and their option key stems.
pub open spec fn bed_key_stem(bed_type: Seq<char>) -> Option<Seq<char>> {
    if bed_type == "Cool Plate"@ {
        Some("cool_plate_temp"@)
    } else if bed_type == "Textured Cool Plate"@ {
        Some("textured_cool_plate_temp"@)
    } else if bed_type == "Engineering Plate"@ {
        Some("eng_plate_temp"@)
    } else if bed_type == "High Temp Plate"@ {
        Some("hot_plate_temp"@)
    } else if bed_type == "Textured PEI Plate"@ {
        Some("textured_plate_temp"@)
    } else if bed_type == "Supertack Plate"@ || bed_type == "SuperTack Plate"@ {
        Some("supertack_plate_temp"@)
    } else {
        None
    }
}

/// Each bed type has a key stem of its own: two bed types with the same
/// stem are the same type, but for the two spellings of the Supertack
/// plate.
pub proof fn lemma_bed_key_stems_distinct(a: Seq<char>, b: Seq<char>)
    requires
        bed_key_stem(a) is Some,
        bed_key_stem(a) == bed_key_stem(b),
    ensures
        a == b || ((a == "Supertack Plate"@ || a == "SuperTack Plate"@) && (b == "Supertack Plate"@
            || b == "SuperTack Plate"@)),
{
    reveal_strlit("cool_plate_temp");
    reveal_strlit("textured_cool_plate_temp");
    reveal_strlit("eng_plate_temp");
    reveal_strlit("hot_plate_temp");
    reveal_strlit("textured_plate_temp");
    reveal_strlit("supertack_plate_temp");
    assert("cool_plate_temp"@.len() == 15);
    assert("textured_cool_plate_temp"@.len() == 24);
    assert("eng_plate_temp"@.len() == 14);
    assert("hot_plate_temp"@.len() == 14);
    assert("textured_plate_temp"@.len() == 19);
    assert("supertack_plate_temp"@.len() == 20);
    assert("eng_plate_temp"@ != "hot_plate_temp"@) by {
        assert("eng_plate_temp"@[0] != "hot_plate_temp"@[0]);
    }
}

/// The bed temperature key of the layers after the first for a bed type.
pub fn other_layer_bed_temperature_key(bed_type: &str) -> (r: Result<&'static str, SliceError>)
    ensures
        match bed_key_stem(bed_type@) {
            Some(k) => r matches Ok(t) && t@ == k,
            None => agrees(r, Err("curr_bed_type has an invalid value"@)),
        },
{
    if str_eq(bed_type, "Cool Plate") {
        Ok("cool_plate_temp")
    } else if str_eq(bed_type, "Textured Cool Plate") {
        Ok("textured_cool_plate_temp")
    } else if str_eq(bed_type, "Engineering Plate") {
        Ok("eng_plate_temp")
    } else if str_eq(bed_type, "High Temp Plate") {
        Ok("hot_plate_temp")
    } else if str_eq(bed_type, "Textured PEI Plate") {
        Ok("textured_plate_temp")
    } else if str_eq(bed_type, "Supertack Plate") || str_eq(bed_type, "SuperTack Plate") {
        Ok("supertack_plate_temp")
    } else {
        proof {
            lemma_bed_messages();
        }
        Err(invalid_curr_bed_type("has an invalid value"))
    }
}

/// The first-layer bed temperature key for a bed type.
pub fn first_layer_bed_temperature_key(bed_type: &str) -> (r: Result<&'static str, SliceError>)
    ensures
        match bed_key_stem(bed_type@) {
            Some(k) => r matches Ok(t) && t@ == k + "_initial_layer"@,
            None => agrees(r, Err("curr_bed_type has an invalid value"@)),
        },
        r matches Ok(t) ==> default_first_layer_spec(t@) is Some,
{
    proof {
        reveal_strlit("cool_plate_temp");
        reveal_strlit("textured_cool_plate_temp");
        reveal_strlit("eng_plate_temp");
        reveal_strlit("hot_plate_temp");
        reveal_strlit("textured_plate_temp");
        reveal_strlit("supertack_plate_temp");
        reveal_strlit("_initial_layer");
        reveal_strlit("cool_plate_temp_initial_layer");
        reveal_strlit("textured_cool_plate_temp_initial_layer");
        reveal_strlit("eng_plate_temp_initial_layer");
        reveal_strlit("hot_plate_temp_initial_layer");
        reveal_strlit("textured_plate_temp_initial_layer");
        reveal_strlit("supertack_plate_temp_initial_layer");
    }
    if str_eq(bed_type, "Cool Plate") {
        assert("cool_plate_temp_initial_layer"@ =~= "cool_plate_temp"@ + "_initial_layer"@);
        Ok("cool_plate_temp_initial_layer")
    } else if str_eq(bed_type, "Textured Cool Plate") {
        assert("textured_cool_plate_temp_initial_layer"@ =~= "textured_cool_plate_temp"@
            + "_initial_layer"@);
        Ok("textured_cool_plate_temp_initial_layer")
    } else if str_eq(bed_type, "Engineering Plate") {
        assert("eng_plate_temp_initial_layer"@ =~= "eng_plate_temp"@ + "_initial_layer"@);
        Ok("eng_plate_temp_initial_layer")
    } else if str_eq(bed_type, "High Temp Plate") {
        assert("hot_plate_temp_initial_layer"@ =~= "hot_plate_temp"@ + "_initial_layer"@);
        Ok("hot_plate_temp_initial_layer")
    } else if str_eq(bed_type, "Textured PEI Plate") {
        assert("textured_plate_temp_initial_layer"@ =~= "textured_plate_temp"@
            + "_initial_layer"@);
        Ok("textured_plate_temp_initial_layer")
    } else if str_eq(bed_type, "Supertack Plate") || str_eq(bed_type, "SuperTack Plate") {
        assert("supertack_plate_temp_initial_layer"@ =~= "supertack_plate_temp"@
            + "_initial_layer"@);
        Ok("supertack_plate_temp_initial_layer")
    } else {
        proof {
            lemma_bed_messages();
        }
        Err(invalid_curr_bed_type("has an invalid value"))
    }
}

/// The first-layer bed temperature keys and their defaults.
pub open spec fn default_first_layer_spec(key: Seq<char>) -> Option<u32> {
    if key == "cool_plate_temp_initial_layer"@ || key == "supertack_plate_temp_initial_layer"@ {
        Some(35)
    } else if key == "textured_cool_plate_temp_initial_layer"@ {
        Some(40)
    } else if key == "eng_plate_temp_initial_layer"@ || key == "hot_plate_temp_initial_layer"@
        || key == "textured_plate_temp_initial_layer"@ {
        Some(45)
    } else {
        None
    }
}

/// The default first-layer bed temperature of a first-layer key.
pub fn default_first_layer_bed_temperature(key: &str) -> (r: u32)
    requires
        default_first_layer_spec(key@) is Some,
    ensures
        Some(r) == default_first_layer_spec(key@),
{
    if str_eq(key, "cool_plate_temp_initial_layer") || str_eq(
        key,
        "supertack_plate_temp_initial_layer",
    ) {
        35
    } else if str_eq(key, "textured_cool_plate_temp_initial_layer") {
        40
    } else {
        45
    }
}

/// What `curr_bed_type` gives.
pub open spec fn curr_bed_type_spec(values: Map<Seq<char>, Json>) -> Result<Seq<char>, Seq<char>> {
    match opt_get(values, "curr_bed_type"@) {
        None => Ok(default_bed_type()),
        Some(j) => match json_as_str(j) {
            Some(s) => Ok(s),
            None => Err("curr_bed_type must be a string"@),
        },
    }
}

impl SliceOptions {
    /// The configured bed type, `Cool Plate` by default.
    pub fn curr_bed_type(&self) -> (r: Result<&str, SliceError>)
        ensures
            match curr_bed_type_spec(self@) {
                Ok(s) => r matches Ok(t) && t@ == s,
                Err(m) => r matches Err(e) && crate::error::message_of(e) == m,
            },
    {
        match self.values().get("curr_bed_type") {
            Some(value) => match value.as_str() {
                Some(text) => Ok(text),
                None => {
                    proof {
                        lemma_bed_messages();
                    }
                    Err(invalid_curr_bed_type("must be a string"))
                },
            },
            None => Ok("Cool Plate"),
        }
    }
}


/// A list of values with its error as message text.
pub open spec fn parsed_model(r: Result<Vec<u32>, SliceError>) -> Result<Seq<u32>, Seq<char>> {
    match r {
        Ok(v) => Ok(v@),
        Err(e) => Err(crate::error::message_of(e)),
    }
}

/// What `first_layer_bed_temperature_values` gives: the caller's reading of
/// the current plate's first-layer option when it is set, else the plate's
/// default.
pub open spec fn first_layer_values_spec(
    values: Map<Seq<char>, Json>,
    parsed: Result<Seq<u32>, Seq<char>>,
) -> Result<Seq<u32>, Seq<char>> {
    match curr_bed_type_spec(values) {
        Err(m) => Err(m),
        Ok(bed_type) => match bed_key_stem(bed_type) {
            None => Err("curr_bed_type has an invalid value"@),
            Some(stem) => {
                let key = stem + "_initial_layer"@;
                if values.contains_key(key) {
                    parsed
                } else {
                    Ok(seq![default_first_layer_spec(key)->Some_0])
                }
            },
        },
    }
}

/// What `first_layer_bed_temperature` gives.
pub open spec fn first_layer_spec(
    values: Map<Seq<char>, Json>,
    parsed: Result<Seq<u32>, Seq<char>>,
) -> Result<u32, Seq<char>> {
    match formula_spec(values) {
        Err(m) => Err(m),
        Ok(formula) => match first_layer_values_spec(values, parsed) {
            Err(m) => Err(m),
            Ok(v) => Ok(select_spec(formula, v)),
        },
    }
}

/// What `other_layer_bed_temperature_values` gives: the caller's reading
/// of the current plate's option when it is set, else the first-layer
/// temperature.
pub open spec fn other_layer_values_spec(
    values: Map<Seq<char>, Json>,
    parsed_other: Result<Seq<u32>, Seq<char>>,
    parsed_first: Result<Seq<u32>, Seq<char>>,
) -> Result<Seq<u32>, Seq<char>> {
    match curr_bed_type_spec(values) {
        Err(m) => Err(m),
        Ok(bed_type) => match bed_key_stem(bed_type) {
            None => Err("curr_bed_type has an invalid value"@),
            Some(key) => if values.contains_key(key) {
                parsed_other
            } else {
                match first_layer_spec(values, parsed_first) {
                    Err(m) => Err(m),
                    Ok(t) => Ok(seq![t]),
                }
            },
        },
    }
}

/// What `other_layer_bed_temperature` gives: the formula applied to the
/// values of the layers after the first.
pub open spec fn other_layer_spec(
    values: Map<Seq<char>, Json>,
    parsed_other: Result<Seq<u32>, Seq<char>>,
    parsed_first: Result<Seq<u32>, Seq<char>>,
) -> Result<u32, Seq<char>> {
    match formula_spec(values) {
        Err(m) => Err(m),
        Ok(formula) => match other_layer_values_spec(values, parsed_other, parsed_first) {
            Err(m) => Err(m),
            Ok(v) => Ok(select_spec(formula, v)),
        },
    }
}

impl SliceOptions {
    /// The first-layer bed temperatures of the current plate.
    /// `parsed_first` is the caller's reading of the plate's first-layer
    /// temperature list, used only when that option is set.
    pub fn first_layer_bed_temperature_values(&self, parsed_first: Result<Vec<u32>, SliceError>) -> (r:
        Result<Vec<u32>, SliceError>)
        ensures
            match first_layer_values_spec(self@, parsed_model(parsed_first)) {
                Ok(v) => r matches Ok(w) && w@ == v,
                Err(m) => r matches Err(e) && crate::error::message_of(e) == m,
            },
    {
        let bed_type = match self.curr_bed_type() {
            Ok(t) => t,
            Err(e) => return Err(e),
        };
        let key = match first_layer_bed_temperature_key(bed_type) {
            Ok(k) => k,
            Err(e) => return Err(e),
        };
        if self.values().contains_key(key) {
            parsed_first
        } else {
            proof {
                reveal_strlit("_initial_layer");
                reveal_strlit("cool_plate_temp");
                reveal_strlit("textured_cool_plate_temp");
                reveal_strlit("eng_plate_temp");
                reveal_strlit("hot_plate_temp");
                reveal_strlit("textured_plate_temp");
                reveal_strlit("supertack_plate_temp");
                reveal_strlit("cool_plate_temp_initial_layer");
                reveal_strlit("textured_cool_plate_temp_initial_layer");
                reveal_strlit("eng_plate_temp_initial_layer");
                reveal_strlit("hot_plate_temp_initial_layer");
                reveal_strlit("textured_plate_temp_initial_layer");
                reveal_strlit("supertack_plate_temp_initial_layer");
            }
            let v = vec![default_first_layer_bed_temperature(key)];
            assert(v@ =~= seq![default_first_layer_spec(key@)->Some_0]);
            Ok(v)
        }
    }

    /// The first-layer bed temperature: the formula applied to the current
    /// plate's first-layer temperatures.
    pub fn first_layer_bed_temperature(&self, parsed_first: Result<Vec<u32>, SliceError>) -> (r:
        Result<FirstLayerBedTemperature, SliceError>)
        requires
            parsed_first matches Ok(v) ==> v@.len() > 0,
        ensures
            match first_layer_spec(self@, parsed_model(parsed_first)) {
                Ok(t) => r matches Ok(b) && b.value_spec() == t,
                Err(m) => r matches Err(e) && crate::error::message_of(e) == m,
            },
    {
        let formula = match BedTemperatureFormula::parse(self) {
            Ok(f) => f,
            Err(e) => return Err(e),
        };
        let values = match self.first_layer_bed_temperature_values(parsed_first) {
            Ok(v) => v,
            Err(e) => return Err(e),
        };
        Ok(FirstLayerBedTemperature::new(formula.select(values.as_slice())))
    }

    /// The bed temperatures of the layers after the first: the caller's
    /// reading of the current plate's option when it is set, else the
    /// first-layer temperature. `parsed_other` and `parsed_first` are the
    /// caller's readings of the plate's two temperature lists.
    pub fn other_layer_bed_temperature_values(
        &self,
        parsed_other: Result<Vec<u32>, SliceError>,
        parsed_first: Result<Vec<u32>, SliceError>,
    ) -> (r: Result<Vec<u32>, SliceError>)
        requires
            parsed_first matches Ok(v) ==> v@.len() > 0,
        ensures
            match other_layer_values_spec(
                self@,
                parsed_model(parsed_other),
                parsed_model(parsed_first),
            ) {
                Ok(v) => r matches Ok(w) && w@ == v,
                Err(m) => r matches Err(e) && crate::error::message_of(e) == m,
            },
    {
        let bed_type = match self.curr_bed_type() {
            Ok(t) => t,
            Err(e) => return Err(e),
        };
        let key = match other_layer_bed_temperature_key(bed_type) {
            Ok(k) => k,
            Err(e) => return Err(e),
        };
        if self.values().contains_key(key) {
            parsed_other
        } else {
            match self.first_layer_bed_temperature(parsed_first) {
                Ok(t) => {
                    let v = vec![t.value()];
                    assert(v@ =~= seq![t.value_spec()]);
                    Ok(v)
                },
                Err(e) => Err(e),
            }
        }
    }

    /// The bed temperature of the layers after the first: the formula
    /// applied to the current plate's temperatures, or the first-layer
    /// temperature when they are unset.
    pub fn other_layer_bed_temperature(
        &self,
        parsed_other: Result<Vec<u32>, SliceError>,
        parsed_first: Result<Vec<u32>, SliceError>,
    ) -> (r: Result<OtherLayerBedTemperature, SliceError>)
        requires
            parsed_other matches Ok(v) ==> v@.len() > 0,
            parsed_first matches Ok(v) ==> v@.len() > 0,
        ensures
            match other_layer_spec(
                self@,
                parsed_model(parsed_other),
                parsed_model(parsed_first),
            ) {
                Ok(t) => r matches Ok(b) && b.value_spec() == t,
                Err(m) => r matches Err(e) && crate::error::message_of(e) == m,
            },
    {
        let formula = match BedTemperatureFormula::parse(self) {
            Ok(f) => f,
            Err(e) => return Err(e),
        };
        let values = match self.other_layer_bed_temperature_values(parsed_other, parsed_first) {
            Ok(v) => v,
            Err(e) => return Err(e),
        };
        Ok(OtherLayerBedTemperature::new(formula.select(values.as_slice())))
    }
}

} // verus!
