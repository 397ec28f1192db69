//! A bit-depth and sample-rate reducer; values are stored scaled by 1_000_000.
use vstd::prelude::*;
use crate::text::text_eq;

verus! {

/// Shared, automatable parameters of the component, as stored values.
#[derive(Clone, Copy, Debug, PartialEq, Eq, Structural)]
pub struct Params {
    /// Bit depth (1 to 16), scaled.
    pub bit_depth: u32,
    /// Downsample factor (1 to 50), scaled.
    pub downsample: u32,
    pub bypassed: bool,
}

/// The stored value of the named parameter, if the component has one of that name.
pub open spec fn param_value(p: Params, name: Seq<char>) -> Option<u32> {
    if name == "bit_depth"@ { Some(p.bit_depth) } else if name == "downsample"@ { Some(p.downsample) } else { None }
}

/// The parameters with the named one set, if the component has one of that name.
pub open spec fn param_updated(p: Params, name: Seq<char>, value: u32) -> Params {
    if name == "bit_depth"@ { Params { bit_depth: value, ..p } } else if name == "downsample"@ { Params { downsample: value, ..p } } else { p }
}

/// The parameters a new component starts with.
pub open spec fn default_params() -> Params {
    Params {
        bit_depth: 16_000_000,
        downsample: 1_000_000,
        bypassed: false,
    }
}

impl Default for Params {
    fn default() -> (r: Params)
        ensures
            r == default_params(),
    {
        Params {
            bit_depth: 16_000_000,
            downsample: 1_000_000,
            bypassed: false,
        }
    }
}

impl Params {
    /// The stored value of a parameter by name, as used for MIDI mapping.
    pub fn get_param(&self, name: &str) -> (r: Option<u32>)
        ensures
            r == param_value(*self, name@),
    {
        if text_eq(name, "bit_depth") {
            Some(self.bit_depth)
        } else if text_eq(name, "downsample") {
            Some(self.downsample)
        } else {
            None
        }
    }

    /// Stores a parameter by name; returns whether the component has one of that name.
    pub fn set_param(&mut self, name: &str, value: u32) -> (found: bool)
        ensures
            found == (param_value(*old(self), name@) is Some),
            *final(self) == param_updated(*old(self), name@, value),
    {
        if text_eq(name, "bit_depth") {
            self.bit_depth = value;
            true
        } else if text_eq(name, "downsample") {
            self.downsample = value;
            true
        } else {
            false
        }
    }
}

} // verus!
