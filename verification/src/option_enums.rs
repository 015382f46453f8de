//! Options that name one of a few fixed choices: the brim type and the
//! draft shield.
use vstd::prelude::*;
use crate::error::{SliceError, invalid_message};
use crate::json::Json;
use crate::slice_options::{SliceOptions, agrees};
use crate::text::str_eq;

verus! {

/// The kind of brim.
#[derive(Clone, Copy, Debug, PartialEq, Eq, Structural)]
pub enum BrimType {
    AutoBrim,
    BrimEars,
    Painted,
    OuterOnly,
    InnerOnly,
    OuterAndInner,
    NoBrim,
}

/// The brim type a name stands for.
pub open spec fn brim_type_named(name: Seq<char>) -> Option<BrimType> {
    if name == "auto_brim"@ {
        Some(BrimType::AutoBrim)
    } else if name == "brim_ears"@ {
        Some(BrimType::BrimEars)
    } else if name == "painted"@ {
        Some(BrimType::Painted)
    } else if name == "outer_only"@ {
        Some(BrimType::OuterOnly)
    } else if name == "inner_only"@ {
        Some(BrimType::InnerOnly)
    } else if name == "outer_and_inner"@ {
        Some(BrimType::OuterAndInner)
    } else if name == "no_brim"@ {
        Some(BrimType::NoBrim)
    } else {
        None
    }
}

/// What `parse_brim_type` gives: the automatic brim when unset.
pub open spec fn brim_type_spec(values: Map<Seq<char>, Json>) -> Result<BrimType, Seq<char>> {
    if !values.contains_key("brim_type"@) {
        Ok(BrimType::AutoBrim)
    } else {
        match values["brim_type"@] {
            Json::Str(s) => match brim_type_named(s) {
                Some(t) => Ok(t),
                None => Err("brim_type must be a valid Orca brim type"@),
            },
            _ => Err("brim_type must be a valid Orca brim type"@),
        }
    }
}

impl SliceOptions {
    /// The brim type; the automatic brim when unset.
    pub fn parse_brim_type(&self) -> (r: Result<BrimType, SliceError>)
        ensures
            agrees(r, brim_type_spec(self@)),
    {
        let value = match self.values().get("brim_type") {
            None => return Ok(BrimType::AutoBrim),
            Some(v) => v,
        };
        let error = "brim_type must be a valid Orca brim type";
        match value.as_str() {
            Some(name) => if str_eq(name, "auto_brim") {
                Ok(BrimType::AutoBrim)
            } else if str_eq(name, "brim_ears") {
                Ok(BrimType::BrimEars)
            } else if str_eq(name, "painted") {
                Ok(BrimType::Painted)
            } else if str_eq(name, "outer_only") {
                Ok(BrimType::OuterOnly)
            } else if str_eq(name, "inner_only") {
                Ok(BrimType::InnerOnly)
            } else if str_eq(name, "outer_and_inner") {
                Ok(BrimType::OuterAndInner)
            } else if str_eq(name, "no_brim") {
                Ok(BrimType::NoBrim)
            } else {
                Err(invalid_message(error))
            },
            None => Err(invalid_message(error)),
        }
    }
}

/// Whether the draft shield is printed.
#[derive(Clone, Copy, Debug, PartialEq, Eq, Structural)]
pub enum DraftShield {
    Disabled,
    Enabled,
}

/// What `parse_draft_shield` gives: disabled when unset.
pub open spec fn draft_shield_spec(values: Map<Seq<char>, Json>) -> Result<DraftShield, Seq<char>> {
    if !values.contains_key("draft_shield"@) {
        Ok(DraftShield::Disabled)
    } else {
        match values["draft_shield"@] {
            Json::Str(s) => if s == "disabled"@ {
                Ok(DraftShield::Disabled)
            } else if s == "enabled"@ {
                Ok(DraftShield::Enabled)
            } else {
                Err("draft_shield must be disabled or enabled"@)
            },
            _ => Err("draft_shield must be disabled or enabled"@),
        }
    }
}

impl SliceOptions {
    /// The draft shield setting; disabled when unset.
    pub fn parse_draft_shield(&self) -> (r: Result<DraftShield, SliceError>)
        ensures
            agrees(r, draft_shield_spec(self@)),
    {
        let value = match self.values().get("draft_shield") {
            None => return Ok(DraftShield::Disabled),
            Some(v) => v,
        };
        let error = "draft_shield must be disabled or enabled";
        match value.as_str() {
            Some(name) => if str_eq(name, "disabled") {
                Ok(DraftShield::Disabled)
            } else if str_eq(name, "enabled") {
                Ok(DraftShield::Enabled)
            } else {
                Err(invalid_message(error))
            },
            None => Err(invalid_message(error)),
        }
    }

    /// Whether Z heights are kept precise; off when unset.
    pub fn precise_z_height(&self) -> (r: Result<bool, SliceError>)
        ensures
            agrees(r, crate::slice_options::bool_option_spec(self@, "precise_z_height"@, false)),
    {
        self.bool_option("precise_z_height", false)
    }
}

} // verus!
