//! Tracks the amplitude envelope of a signal; times and gain are stored scaled by 1_000_000.
use vstd::prelude::*;
use crate::text::text_eq;

verus! {

/// Shared, automatable parameters of the component, as stored values.
#[derive(Clone, Copy, Debug, PartialEq, Eq, Structural)]
pub struct Params {
    /// Attack time in milliseconds, scaled.
    pub attack_ms: u32,
    /// Release time in milliseconds, scaled.
    pub release_ms: u32,
    /// Input gain before detection, scaled.
    pub sensitivity: u32,
    pub bypassed: bool,
}

/// The stored value of the named parameter, if the component has one of that name.
pub open spec fn param_value(p: Params, name: Seq<char>) -> Option<u32> {
    if name == "attack_ms"@ { Some(p.attack_ms) } else if name == "release_ms"@ { Some(p.release_ms) } else if name == "sensitivity"@ { Some(p.sensitivity) } else { None }
}

/// The parameters with the named one set, if the component has one of that name.
pub open spec fn param_updated(p: Params, name: Seq<char>, value: u32) -> Params {
    if name == "attack_ms"@ { Params { attack_ms: value, ..p } } else if name == "release_ms"@ { Params { release_ms: value, ..p } } else if name == "sensitivity"@ { Params { sensitivity: value, ..p } } else { p }
}

/// The parameters a new component starts with.
pub open spec fn default_params() -> Params {
    Params {
        attack_ms: 10_000_000,
        release_ms: 150_000_000,
        sensitivity: 1_000_000,
        bypassed: false,
    }
}

impl Default for Params {
    fn default() -> (r: Params)
        ensures
            r == default_params(),
    {
        Params {
            attack_ms: 10_000_000,
            release_ms: 150_000_000,
            sensitivity: 1_000_000,
            bypassed: false,
        }
    }
}

impl Params {
    /// The stored value of a parameter by name, as used for MIDI mapping.
    pub fn get_param(&self, name: &str) -> (r: Option<u32>)
        ensures
            r == param_value(*self, name@),
    {
        if text_eq(name, "attack_ms") {
            Some(self.attack_ms)
        } else if text_eq(name, "release_ms") {
            Some(self.release_ms)
        } else if text_eq(name, "sensitivity") {
            Some(self.sensitivity)
        } else {
            None
        }
    }

    /// Stores a parameter by name; returns whether the component has one of that name.
    pub fn set_param(&mut self, name: &str, value: u32) -> (found: bool)
        ensures
            found == (param_value(*old(self), name@) is Some),
            *final(self) == param_updated(*old(self), name@, value),
    {
        if text_eq(name, "attack_ms") {
            self.attack_ms = value;
            true
        } else if text_eq(name, "release_ms") {
            self.release_ms = value;
            true
        } else if text_eq(name, "sensitivity") {
            self.sensitivity = value;
            true
        } else {
            false
        }
    }
}

} // verus!
