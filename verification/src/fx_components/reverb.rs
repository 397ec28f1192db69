//! A Schroeder-style reverb; values are stored scaled by 1_000_000.
use vstd::prelude::*;
use crate::text::text_eq;

verus! {

/// Shared, automatable parameters of the component, as stored values.
#[derive(Clone, Copy, Debug, PartialEq, Eq, Structural)]
pub struct Params {
    /// Room size (0 to 1), scaled.
    pub size: u32,
    /// Decay (0 to 1), scaled.
    pub decay: u32,
    /// High-frequency damping (0 to 1), scaled.
    pub damping: u32,
    pub bypassed: bool,
}

/// The stored value of the named parameter, if the component has one of that name.
pub open spec fn param_value(p: Params, name: Seq<char>) -> Option<u32> {
    if name == "size"@ { Some(p.size) } else if name == "decay"@ { Some(p.decay) } else if name == "damping"@ { Some(p.damping) } else { None }
}

/// The parameters with the named one set, if the component has one of that name.
pub open spec fn param_updated(p: Params, name: Seq<char>, value: u32) -> Params {
    if name == "size"@ { Params { size: value, ..p } } else if name == "decay"@ { Params { decay: value, ..p } } else if name == "damping"@ { Params { damping: value, ..p } } else { p }
}

/// The parameters a new component starts with.
pub open spec fn default_params() -> Params {
    Params {
        size: 700_000,
        decay: 800_000,
        damping: 500_000,
        bypassed: false,
    }
}

impl Default for Params {
    fn default() -> (r: Params)
        ensures
            r == default_params(),
    {
        Params {
            size: 700_000,
            decay: 800_000,
            damping: 500_000,
            bypassed: false,
        }
    }
}

impl Params {
    /// The stored value of a parameter by name, as used for MIDI mapping.
    pub fn get_param(&self, name: &str) -> (r: Option<u32>)
        ensures
            r == param_value(*self, name@),
    {
        if text_eq(name, "size") {
            Some(self.size)
        } else if text_eq(name, "decay") {
            Some(self.decay)
        } else if text_eq(name, "damping") {
            Some(self.damping)
        } else {
            None
        }
    }

    /// Stores a parameter by name; returns whether the component has one of that name.
    pub fn set_param(&mut self, name: &str, value: u32) -> (found: bool)
        ensures
            found == (param_value(*old(self), name@) is Some),
            *final(self) == param_updated(*old(self), name@, value),
    {
        if text_eq(name, "size") {
            self.size = value;
            true
        } else if text_eq(name, "decay") {
            self.decay = value;
            true
        } else if text_eq(name, "damping") {
            self.damping = value;
            true
        } else {
            false
        }
    }
}

} // verus!
