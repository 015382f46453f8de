//! The integer and boolean options of the auxiliary cooling fan: whether it
//! is fitted, its speed, and the layers over which it ramps up.
use vstd::prelude::*;
use crate::error::{SliceError, invalid, message_of};
use crate::json::{Json, JsonValue};
use crate::filament_override::opt_model;
use crate::bed_temperature::parsed_model;

verus! {

/// What `auxiliary_fan` gives: not fitted when unset.
pub open spec fn auxiliary_fan_spec(value: Option<Json>) -> Result<bool, Seq<char>> {
    match value {
        None => Ok(false),
        Some(Json::Bool(b)) => Ok(b),
        Some(_) => Err("auxiliary_fan must be a boolean"@),
    }
}

/// Whether the printer has an auxiliary fan; it has none by default.
pub fn auxiliary_fan(value: Option<&JsonValue>) -> (r: Result<bool, SliceError>)
    ensures
        match auxiliary_fan_spec(opt_model(value)) {
            Ok(b) => r == Ok::<bool, SliceError>(b),
            Err(m) => r matches Err(e) && message_of(e) == m,
        },
{
    proof {
        reveal_strlit(" must be a boolean");
        reveal_strlit("auxiliary_fan");
        reveal_strlit("auxiliary_fan must be a boolean");
        assert("auxiliary_fan"@ + " must be a boolean"@ =~= "auxiliary_fan must be a boolean"@);
    }
    match value {
        None => Ok(false),
        Some(JsonValue::Bool(b)) => Ok(*b),
        Some(_) => Err(invalid("auxiliary_fan", " must be a boolean")),
    }
}

/// What `first_integer` gives: `default` when the option is unset, else
/// the first of the caller's reading of its integer list.
pub open spec fn first_integer_spec(
    key: Seq<char>,
    value: Option<Json>,
    default: u32,
    parsed: Result<Seq<u32>, Seq<char>>,
) -> Result<u32, Seq<char>> {
    match value {
        None => Ok(default),
        Some(_) => match parsed {
            Err(m) => Err(m),
            Ok(v) => if v.len() == 0 {
                Err(key + " must not be empty"@)
            } else {
                Ok(v[0])
            },
        },
    }
}

/// The first entry of an integer list option, `default` when unset.
/// `parsed` is the caller's reading of the list, used only when the option
/// is set.
pub fn first_integer(
    key: &str,
    value: Option<&JsonValue>,
    default: u32,
    parsed: Result<Vec<u32>, SliceError>,
) -> (r: Result<u32, SliceError>)
    ensures
        match first_integer_spec(key@, opt_model(value), default, parsed_model(parsed)) {
            Ok(n) => r == Ok::<u32, SliceError>(n),
            Err(m) => r matches Err(e) && message_of(e) == m,
        },
{
    match value {
        None => Ok(default),
        Some(_) => match parsed {
            Err(e) => Err(e),
            Ok(v) => if v.len() == 0 {
                proof {
                    reveal_strlit(" must not be empty");
                }
                Err(invalid(key, " must not be empty"))
            } else {
                Ok(v[0])
            },
        },
    }
}

/// What `additional_cooling_fan_speed` gives: a percent, 0 when unset.
pub open spec fn additional_cooling_fan_speed_spec(
    value: Option<Json>,
    parsed: Result<Seq<u32>, Seq<char>>,
) -> Result<u8, Seq<char>> {
    match first_integer_spec("additional_cooling_fan_speed"@, value, 0, parsed) {
        Err(m) => Err(m),
        Ok(n) => if n <= 100 {
            Ok(n as u8)
        } else {
            Err("additional_cooling_fan_speed must be a percent from 0 to 100"@)
        },
    }
}

/// The auxiliary fan's speed in percent, 0 when unset. `parsed` is the
/// caller's reading of the option's integer list.
pub fn additional_cooling_fan_speed(
    value: Option<&JsonValue>,
    parsed: Result<Vec<u32>, SliceError>,
) -> (r: Result<u8, SliceError>)
    ensures
        match additional_cooling_fan_speed_spec(opt_model(value), parsed_model(parsed)) {
            Ok(n) => r == Ok::<u8, SliceError>(n),
            Err(m) => r matches Err(e) && message_of(e) == m,
        },
{
    let n = match first_integer("additional_cooling_fan_speed", value, 0, parsed) {
        Ok(n) => n,
        Err(e) => return Err(e),
    };
    if n <= 100 {
        Ok(n as u8)
    } else {
        proof {
            reveal_strlit("additional_cooling_fan_speed");
            reveal_strlit(" must be a percent from 0 to 100");
            reveal_strlit("additional_cooling_fan_speed must be a percent from 0 to 100");
            assert("additional_cooling_fan_speed"@ + " must be a percent from 0 to 100"@
                =~= "additional_cooling_fan_speed must be a percent from 0 to 100"@);
        }
        Err(invalid("additional_cooling_fan_speed", " must be a percent from 0 to 100"))
    }
}

} // verus!
