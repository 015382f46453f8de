//! The fan speed-up option that does not need float arithmetic: whether the
//! speed-up applies only to overhangs.
use vstd::prelude::*;
use crate::error::{SliceError, invalid, message_of};
use crate::json::{Json, JsonValue, json_as_bool};
use crate::filament_override::opt_model;

verus! {

/// What `scalar_bool` gives: `default` when unset.
pub open spec fn scalar_bool_spec(key: Seq<char>, value: Option<Json>, default: bool) -> Result<
    bool,
    Seq<char>,
> {
    match value {
        None => Ok(default),
        Some(j) => match json_as_bool(j) {
            Some(b) => Ok(b),
            None => Err(key + " must be a boolean"@),
        },
    }
}

/// A boolean option, `default` when unset.
pub fn scalar_bool(key: &str, value: Option<&JsonValue>, default: bool) -> (r: Result<
    bool,
    SliceError,
>)
    ensures
        match scalar_bool_spec(key@, opt_model(value), default) {
            Ok(b) => r == Ok::<bool, SliceError>(b),
            Err(m) => r matches Err(e) && message_of(e) == m,
        },
{
    match value {
        None => Ok(default),
        Some(v) => match v.as_bool() {
            Some(b) => Ok(b),
            None => {
                proof {
                    reveal_strlit(" must be a boolean");
                }
                Err(invalid(key, " must be a boolean"))
            },
        },
    }
}

} // verus!
