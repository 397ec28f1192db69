//! A fractional delay line; times and amounts are stored scaled by 1_000_000.
use vstd::prelude::*;
use crate::text::text_eq;

verus! {

/// Shared, automatable parameters of the component, as stored values.
#[derive(Clone, Copy, Debug, PartialEq, Eq, Structural)]
pub struct Params {
    /// Delay time in milliseconds, scaled.
    pub time_ms: u32,
    /// Feedback amount (0 to 1), scaled.
    pub feedback: u32,
    /// High-frequency damping (0 to 1), scaled.
    pub damping: u32,
    pub bypassed: bool,
}

/// The stored value of the named parameter, if the component has one of that name.
pub open spec fn param_value(p: Params, name: Seq<char>) -> Option<u32> {
    if name == "time_ms"@ { Some(p.time_ms) } else if name == "feedback"@ { Some(p.feedback) } else if name == "damping"@ { Some(p.damping) } else { None }
}

/// The parameters with the named one set, if the component has one of that name.
pub open spec fn param_updated(p: Params, name: Seq<char>, value: u32) -> Params {
    if name == "time_ms"@ { Params { time_ms: value, ..p } } else if name == "feedback"@ { Params { feedback: value, ..p } } else if name == "damping"@ { Params { damping: value, ..p } } else { p }
}

/// The parameters a new component starts with.
pub open spec fn default_params() -> Params {
    Params {
        time_ms: 250_000_000,
        feedback: 0,
        damping: 500_000,
        bypassed: false,
    }
}

impl Default for Params {
    fn default() -> (r: Params)
        ensures
            r == default_params(),
    {
        Params {
            time_ms: 250_000_000,
            feedback: 0,
            damping: 500_000,
            bypassed: false,
        }
    }
}

impl Params {
    /// The stored value of a parameter by name, as used for MIDI mapping.
    pub fn get_param(&self, name: &str) -> (r: Option<u32>)
        ensures
            r == param_value(*self, name@),
    {
        if text_eq(name, "time_ms") {
            Some(self.time_ms)
        } else if text_eq(name, "feedback") {
            Some(self.feedback)
        } else if text_eq(name, "damping") {
            Some(self.damping)
        } else {
            None
        }
    }

    /// Stores a parameter by name; returns whether the component has one of that name.
    pub fn set_param(&mut self, name: &str, value: u32) -> (found: bool)
        ensures
            found == (param_value(*old(self), name@) is Some),
            *final(self) == param_updated(*old(self), name@, value),
    {
        if text_eq(name, "time_ms") {
            self.time_ms = value;
            true
        } else if text_eq(name, "feedback") {
            self.feedback = value;
            true
        } else if text_eq(name, "damping") {
            self.damping = value;
            true
        } else {
            false
        }
    }
}

} // verus!
