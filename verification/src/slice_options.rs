//! The option values of a slice, keyed by option name.
use vstd::prelude::*;
use crate::error::{SliceError, message_of, invalid};
use crate::json::{Json, json_as_bool};
use crate::option_map::OptionMap;

verus! {

/// A result whose error is given by its message.
pub open spec fn agrees<T>(r: Result<T, SliceError>, s: Result<T, Seq<char>>) -> bool {
    match (r, s) {
        (Ok(a), Ok(b)) => a == b,
        (Err(e), Err(m)) => message_of(e) == m,
        _ => false,
    }
}

/// What `bool_option` gives: the default when absent, the boolean when it
/// is one, and an error otherwise.
pub open spec fn bool_option_spec(values: Map<Seq<char>, Json>, key: Seq<char>, default: bool) -> Result<
    bool,
    Seq<char>,
> {
    if !values.contains_key(key) {
        Ok(default)
    } else {
        match json_as_bool(values[key]) {
            Some(b) => Ok(b),
            None => Err(key + " must be a boolean"@),
        }
    }
}

/// The option values of a slice.
pub struct SliceOptions {
    pub(crate) values: OptionMap,
}

impl View for SliceOptions {
    type V = Map<Seq<char>, Json>;

    closed spec fn view(&self) -> Map<Seq<char>, Json> {
        self.values@
    }
}

impl SliceOptions {
    /// Options holding the given values.
    pub fn new(values: OptionMap) -> (r: SliceOptions)
        ensures
            r@ == values@,
    {
        SliceOptions { values }
    }

    /// The option values.
    pub fn values(&self) -> (r: &OptionMap)
        ensures
            r@ == self@,
    {
        &self.values
    }

    /// A boolean option, or `default` when it is absent.
    pub fn bool_option(&self, key: &str, default: bool) -> (r: Result<bool, SliceError>)
        ensures
            agrees(r, bool_option_spec(self@, key@, default)),
    {
        match self.values.get(key) {
            None => Ok(default),
            Some(value) => match value.as_bool() {
                Some(b) => Ok(b),
                None => Err(invalid(key, " must be a boolean")),
            },
        }
    }

    /// Stores `value` under `key`.
    pub fn insert(&mut self, key: String, value: crate::json::JsonValue)
        ensures
            final(self)@ == old(self)@.insert(key@, value.model()),
    {
        self.values.insert(key, value);
    }

    /// Removes `key`.
    pub fn remove(&mut self, key: &str)
        ensures
            final(self)@ == old(self)@.remove(key@),
    {
        self.values.remove(key);
    }
}

} // verus!
