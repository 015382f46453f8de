//! The filament change options.
use vstd::prelude::*;
use crate::error::SliceError;
use crate::json::Json;
use crate::slice_options::{SliceOptions, bool_option_spec};

verus! {

/// How filaments are changed.
#[derive(Clone, Copy, Debug)]
pub struct FilamentChangeOptions {
    single_extruder_multi_material: bool,
    manual_filament_change: bool,
    single_extruder_multi_material_priming: bool,
}

impl FilamentChangeOptions {
    pub closed spec fn fields(self) -> (bool, bool, bool) {
        (
            self.single_extruder_multi_material,
            self.manual_filament_change,
            self.single_extruder_multi_material_priming,
        )
    }

    pub fn single_extruder_multi_material(&self) -> (r: bool)
        ensures
            r == self.fields().0,
    {
        self.single_extruder_multi_material
    }

    pub fn manual_filament_change(&self) -> (r: bool)
        ensures
            r == self.fields().1,
    {
        self.manual_filament_change
    }

    pub fn single_extruder_multi_material_priming(&self) -> (r: bool)
        ensures
            r == self.fields().2,
    {
        self.single_extruder_multi_material_priming
    }

    /// Reads every option, so that the options count as used at run time.
    pub fn consume_runtime(self) {
        let _ = (
            self.single_extruder_multi_material(),
            self.manual_filament_change(),
            self.single_extruder_multi_material_priming(),
        );
    }
}

/// What `filament_change_options` gives.
pub open spec fn filament_change_spec(values: Map<Seq<char>, Json>) -> Result<
    (bool, bool, bool),
    Seq<char>,
> {
    match bool_option_spec(values, "single_extruder_multi_material"@, true) {
        Err(m) => Err(m),
        Ok(a) => match bool_option_spec(values, "manual_filament_change"@, false) {
            Err(m) => Err(m),
            Ok(b) => match bool_option_spec(values, "single_extruder_multi_material_priming"@, false) {
                Err(m) => Err(m),
                Ok(c) => Ok((a, b, c)),
            },
        },
    }
}

impl SliceOptions {
    /// The filament change options: single-extruder multi-material (on by
    /// default), manual filament change and priming (off by default).
    pub fn filament_change_options(&self) -> (r: Result<FilamentChangeOptions, SliceError>)
        ensures
            match filament_change_spec(self@) {
                Ok(f) => r matches Ok(o) && o.fields() == f,
                Err(m) => r matches Err(e) && crate::error::message_of(e) == m,
            },
    {
        let a = self.bool_option("single_extruder_multi_material", true)?;
        let b = self.bool_option("manual_filament_change", false)?;
        let c = self.bool_option("single_extruder_multi_material_priming", false)?;
        Ok(
            FilamentChangeOptions {
                single_extruder_multi_material: a,
                manual_filament_change: b,
                single_extruder_multi_material_priming: c,
            },
        )
    }
}

} // verus!
