//! A JSON value with the shape of a configuration option value.
//!
//! Numbers keep the three forms that a JSON number can take: a non-negative
//! integer, a negative integer, or a finite float, the last held as the bit
//! pattern of the `f64`. Float arithmetic is never done here; floats are only
//! carried through and compared.
use vstd::prelude::*;

verus! {

/// The mathematical model of a [`JsonValue`]: strings as character sequences,
/// arrays as sequences, objects as sequences of key/value entries.
pub enum Json {
    Null,
    Bool(bool),
    PosInt(u64),
    NegInt(i64),
    /// The bit pattern of a finite float.
    Float(u64),
    Str(Seq<char>),
    Array(Seq<Json>),
    Object(Seq<(Seq<char>, Json)>),
}

/// A JSON number.
#[derive(Debug)]
pub enum JsonNumber {
    /// A non-negative integer.
    PosInt(u64),
    /// A negative integer.
    NegInt(i64),
    /// The bit pattern of a finite `f64`.
    Float(u64),
}

/// A JSON value.
#[derive(Debug)]
pub enum JsonValue {
    Null,
    Bool(bool),
    Number(JsonNumber),
    String(String),
    Array(Vec<JsonValue>),
    /// Entries in key order, each key once.
    Object(Vec<(String, JsonValue)>),
}

/// The bit pattern of negative zero.
pub const NEGATIVE_ZERO_BITS: u64 = 0x8000_0000_0000_0000u64;

/// The bit pattern that a float compares as: negative zero as zero.
pub open spec fn float_model(bits: u64) -> u64 {
    if bits == NEGATIVE_ZERO_BITS {
        0
    } else {
        bits
    }
}

/// The form in which JSON values compare: every float read as the float it
/// compares equal to (negative zero as zero). Two values are equal as JSON
/// when their canonical forms are the same.
pub open spec fn canonical(j: Json) -> Json
    decreases j,
{
    match j {
        Json::Float(b) => Json::Float(float_model(b)),
        Json::Array(items) => Json::Array(
            Seq::new(
                items.len(),
                |i: int|
                    if 0 <= i < items.len() {
                        canonical(items[i])
                    } else {
                        Json::Null
                    },
            ),
        ),
        Json::Object(entries) => Json::Object(
            Seq::new(
                entries.len(),
                |i: int|
                    if 0 <= i < entries.len() {
                        (entries[i].0, canonical(entries[i].1))
                    } else {
                        (Seq::empty(), Json::Null)
                    },
            ),
        ),
        _ => j,
    }
}

/// The canonical forms of a sequence of values.
pub open spec fn canonical_seq(s: Seq<Json>) -> Seq<Json> {
    Seq::new(s.len(), |i: int| canonical(s[i]))
}

/// The canonical forms of a sequence of object entries.
pub open spec fn canonical_entries(s: Seq<(Seq<char>, Json)>) -> Seq<(Seq<char>, Json)> {
    Seq::new(s.len(), |i: int| (s[i].0, canonical(s[i].1)))
}

impl JsonValue {
    pub open spec fn model(&self) -> Json
        decreases self,
    {
        match self {
            JsonValue::Null => Json::Null,
            JsonValue::Bool(b) => Json::Bool(*b),
            JsonValue::Number(JsonNumber::PosInt(n)) => Json::PosInt(*n),
            JsonValue::Number(JsonNumber::NegInt(n)) => Json::NegInt(*n),
            JsonValue::Number(JsonNumber::Float(b)) => Json::Float(*b),
            JsonValue::String(s) => Json::Str(s@),
            JsonValue::Array(items) => Json::Array(
                Seq::new(
                    items@.len(),
                    |i: int|
                        if 0 <= i < items@.len() {
                            items@[i].model()
                        } else {
                            Json::Null
                        },
                ),
            ),
            JsonValue::Object(entries) => Json::Object(
                Seq::new(
                    entries@.len(),
                    |i: int|
                        if 0 <= i < entries@.len() {
                            (entries@[i].0@, entries@[i].1.model())
                        } else {
                            (Seq::empty(), Json::Null)
                        },
                ),
            ),
        }
    }
}

/// The models of a sequence of values.
pub open spec fn models(items: Seq<JsonValue>) -> Seq<Json> {
    Seq::new(items.len(), |i: int| items[i].model())
}

/// The models of a sequence with one more value.
pub proof fn lemma_models_push(items: Seq<JsonValue>, v: JsonValue)
    ensures
        models(items.push(v)) =~= models(items).push(v.model()),
{
    assert forall|i: int| 0 <= i < items.len() implies models(items.push(v))[i] == models(items)[i] by {
        assert(items.push(v)[i] == items[i]);
    }
    assert(items.push(v)[items.len() as int] == v);
}

pub proof fn lemma_array_model(items: &Vec<JsonValue>)
    ensures
        JsonValue::Array(*items).model() == Json::Array(models(items@)),
{
    let v = JsonValue::Array(*items);
    let s = v.model()->Array_0;
    assert(s =~= models(items@));
}


pub proof fn lemma_object_model(entries: &Vec<(String, JsonValue)>)
    ensures
        JsonValue::Object(*entries).model() == Json::Object(entry_models(entries@)),
{
    let v = JsonValue::Object(*entries);
    let s = v.model()->Object_0;
    assert(s =~= entry_models(entries@));
}

/// What `as_str` gives: the text of a string value.
pub open spec fn json_as_str(j: Json) -> Option<Seq<char>> {
    match j {
        Json::Str(s) => Some(s),
        _ => None,
    }
}

/// What `as_bool` gives.
pub open spec fn json_as_bool(j: Json) -> Option<bool> {
    match j {
        Json::Bool(b) => Some(b),
        _ => None,
    }
}

/// What `as_i64` gives: an integer that fits in `i64`.
pub open spec fn json_as_i64(j: Json) -> Option<i64> {
    match j {
        Json::PosInt(n) => if n <= i64::MAX {
            Some(n as i64)
        } else {
            None
        },
        Json::NegInt(n) => Some(n),
        _ => None,
    }
}

/// What `as_u64` gives: a non-negative integer.
pub open spec fn json_as_u64(j: Json) -> Option<u64> {
    match j {
        Json::PosInt(n) => Some(n),
        _ => None,
    }
}

/// What `as_array` gives: the elements of an array.
pub open spec fn json_as_array(j: Json) -> Option<Seq<Json>> {
    match j {
        Json::Array(items) => Some(items),
        _ => None,
    }
}

/// The model of an integer built from an `i64`.
pub open spec fn int_json(n: int) -> Json {
    if n >= 0 {
        Json::PosInt(n as u64)
    } else {
        Json::NegInt(n as i64)
    }
}

impl JsonValue {
    /// The text of a string value.
    pub fn as_str(&self) -> (r: Option<&str>)
        ensures
            r is Some <==> json_as_str(self.model()) is Some,
            r matches Some(t) ==> json_as_str(self.model()) == Some(t@),
    {
        match self {
            JsonValue::String(s) => Some(s.as_str()),
            _ => None,
        }
    }

    /// The value of a boolean.
    pub fn as_bool(&self) -> (r: Option<bool>)
        ensures
            r == json_as_bool(self.model()),
    {
        match self {
            JsonValue::Bool(b) => Some(*b),
            _ => None,
        }
    }

    /// An integer that fits in `i64`.
    pub fn as_i64(&self) -> (r: Option<i64>)
        ensures
            r == json_as_i64(self.model()),
    {
        match self {
            JsonValue::Number(JsonNumber::PosInt(n)) => if *n <= 9_223_372_036_854_775_807u64 {
                Some(*n as i64)
            } else {
                None
            },
            JsonValue::Number(JsonNumber::NegInt(n)) => Some(*n),
            _ => None,
        }
    }

    /// A non-negative integer.
    pub fn as_u64(&self) -> (r: Option<u64>)
        ensures
            r == json_as_u64(self.model()),
    {
        match self {
            JsonValue::Number(JsonNumber::PosInt(n)) => Some(*n),
            _ => None,
        }
    }

    /// The elements of an array.
    pub fn as_array(&self) -> (r: Option<&Vec<JsonValue>>)
        ensures
            r is Some <==> self.model() is Array,
            r matches Some(items) ==> self.model() == Json::Array(models(items@)),
    {
        match self {
            JsonValue::Array(items) => {
                proof {
                    lemma_array_model(items);
                }
                Some(items)
            },
            _ => None,
        }
    }

    pub fn is_string(&self) -> (r: bool)
        ensures
            r == self.model() is Str,
    {
        matches!(self, JsonValue::String(_))
    }

    pub fn is_null(&self) -> (r: bool)
        ensures
            r == self.model() is Null,
    {
        matches!(self, JsonValue::Null)
    }

    pub fn is_boolean(&self) -> (r: bool)
        ensures
            r == self.model() is Bool,
    {
        matches!(self, JsonValue::Bool(_))
    }

    /// A copy with the same model.
    pub fn duplicate(&self) -> (r: JsonValue)
        ensures
            r.model() == self.model(),
        decreases self,
    {
        match self {
            JsonValue::Null => {
                assert(self.model() == Json::Null);
                JsonValue::Null
            },
            JsonValue::Bool(b) => JsonValue::Bool(*b),
            JsonValue::Number(JsonNumber::PosInt(n)) => JsonValue::Number(JsonNumber::PosInt(*n)),
            JsonValue::Number(JsonNumber::NegInt(n)) => JsonValue::Number(JsonNumber::NegInt(*n)),
            JsonValue::Number(JsonNumber::Float(b)) => JsonValue::Number(JsonNumber::Float(*b)),
            JsonValue::String(s) => JsonValue::String(s.clone()),
            JsonValue::Array(items) => {
                let copied = duplicate_all(items);
                proof {
                    lemma_array_model(items);
                    lemma_array_model(&copied);
                    assert(models(copied@) =~= models(items@));
                }
                JsonValue::Array(copied)
            },
            JsonValue::Object(entries) => {
                let copied = duplicate_entries(entries);
                proof {
                    lemma_object_model(entries);
                    lemma_object_model(&copied);
                }
                let r = JsonValue::Object(copied);
                r
            },
        }
    }
}

/// The model of each entry of an object.
pub open spec fn entry_models(entries: Seq<(String, JsonValue)>) -> Seq<(Seq<char>, Json)> {
    Seq::new(entries.len(), |i: int| (entries[i].0@, entries[i].1.model()))
}

/// Copies of each entry, in order.
pub fn duplicate_entries(entries: &Vec<(String, JsonValue)>) -> (r: Vec<(String, JsonValue)>)
    ensures
        entry_models(r@) == entry_models(entries@),
    decreases entries,
{
    let mut copied: Vec<(String, JsonValue)> = Vec::new();
    let mut i: usize = 0;
    while i < entries.len()
        invariant
            i <= entries@.len(),
            copied@.len() == i,
            forall|j: int|
                0 <= j < i ==> #[trigger] copied@[j].0@ == entries@[j].0@
                    && copied@[j].1.model() == entries@[j].1.model(),
        decreases entries@.len() - i,
    {
        let value = entries[i].1.duplicate();
        copied.push((entries[i].0.clone(), value));
        i = i + 1;
    }
    assert(entry_models(copied@) =~= entry_models(entries@));
    copied
}

/// Copies of each value, in order.
pub fn duplicate_all(items: &Vec<JsonValue>) -> (r: Vec<JsonValue>)
    ensures
        models(r@) == models(items@),
    decreases items,
{
    let mut copied: Vec<JsonValue> = Vec::new();
    let mut i: usize = 0;
    while i < items.len()
        invariant
            i <= items@.len(),
            copied@.len() == i,
            forall|j: int| 0 <= j < i ==> #[trigger] copied@[j].model() == items@[j].model(),
        decreases items@.len() - i,
    {
        let value = items[i].duplicate();
        copied.push(value);
        i = i + 1;
    }
    assert(models(copied@) =~= models(items@));
    copied
}

/// Whether two values are equal as JSON: same kind and same contents, floats
/// compared as floats.
pub fn json_equal(a: &JsonValue, b: &JsonValue) -> (r: bool)
    ensures
        r == (canonical(a.model()) == canonical(b.model())),
    decreases a,
{
    match (a, b) {
        (JsonValue::Null, JsonValue::Null) => true,
        (JsonValue::Bool(x), JsonValue::Bool(y)) => *x == *y,
        (JsonValue::Number(JsonNumber::PosInt(x)), JsonValue::Number(JsonNumber::PosInt(y))) => *x
            == *y,
        (JsonValue::Number(JsonNumber::NegInt(x)), JsonValue::Number(JsonNumber::NegInt(y))) => *x
            == *y,
        (JsonValue::Number(JsonNumber::Float(x)), JsonValue::Number(JsonNumber::Float(y))) => {
            let nx = if *x == NEGATIVE_ZERO_BITS {
                0u64
            } else {
                *x
            };
            let ny = if *y == NEGATIVE_ZERO_BITS {
                0u64
            } else {
                *y
            };
            nx == ny
        },
        (JsonValue::String(x), JsonValue::String(y)) => *x == *y,
        (JsonValue::Array(x), JsonValue::Array(y)) => {
            proof {
                lemma_array_model(x);
                lemma_array_model(y);
                assert(canonical(a.model())->Array_0 =~= canonical_seq(models(x@)));
                assert(canonical(b.model())->Array_0 =~= canonical_seq(models(y@)));
            }
            all_equal(x, y)
        },
        (JsonValue::Object(x), JsonValue::Object(y)) => {
            proof {
                lemma_object_model(x);
                lemma_object_model(y);
                assert(canonical(a.model())->Object_0 =~= canonical_entries(entry_models(x@)));
                assert(canonical(b.model())->Object_0 =~= canonical_entries(entry_models(y@)));
            }
            entries_equal(x, y)
        },
        _ => false,
    }
}

/// Whether two sequences of values are equal element by element.
pub fn all_equal(a: &Vec<JsonValue>, b: &Vec<JsonValue>) -> (r: bool)
    ensures
        r == (canonical_seq(models(a@)) == canonical_seq(models(b@))),
    decreases a,
{
    if a.len() != b.len() {
        proof {
            assert(canonical_seq(models(a@)).len() != canonical_seq(models(b@)).len());
        }
        return false;
    }
    let mut i: usize = 0;
    while i < a.len()
        invariant
            a@.len() == b@.len(),
            i <= a@.len(),
            forall|j: int|
                0 <= j < i ==> #[trigger] canonical(a@[j].model()) == canonical(b@[j].model()),
        decreases a@.len() - i,
    {
        if !json_equal(&a[i], &b[i]) {
            proof {
                assert(canonical_seq(models(a@))[i as int] != canonical_seq(models(b@))[i as int]);
            }
            return false;
        }
        i = i + 1;
    }
    assert(canonical_seq(models(a@)) =~= canonical_seq(models(b@)));
    true
}

/// Whether two sequences of object entries are equal entry by entry.
pub fn entries_equal(a: &Vec<(String, JsonValue)>, b: &Vec<(String, JsonValue)>) -> (r: bool)
    ensures
        r == (canonical_entries(entry_models(a@)) == canonical_entries(entry_models(b@))),
    decreases a,
{
    if a.len() != b.len() {
        proof {
            assert(canonical_entries(entry_models(a@)).len() != canonical_entries(entry_models(b@)).len());
        }
        return false;
    }
    let mut i: usize = 0;
    while i < a.len()
        invariant
            a@.len() == b@.len(),
            i <= a@.len(),
            forall|j: int|
                #![trigger a@[j]]
                0 <= j < i ==> a@[j].0@ == b@[j].0@ && canonical(a@[j].1.model()) == canonical(
                    b@[j].1.model(),
                ),
        decreases a@.len() - i,
    {
        if !(a[i].0 == b[i].0) || !json_equal(&a[i].1, &b[i].1) {
            proof {
                assert(canonical_entries(entry_models(a@))[i as int] != canonical_entries(
                    entry_models(b@),
                )[i as int]);
            }
            return false;
        }
        assert(a@[i as int].0@ == b@[i as int].0@);
        i = i + 1;
    }
    assert(canonical_entries(entry_models(a@)) =~= canonical_entries(entry_models(b@)));
    true
}

} // verus!
