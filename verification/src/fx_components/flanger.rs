//! A flanger; values are stored scaled by 1_000_000, the feedback offset by one.
use vstd::prelude::*;
use crate::text::text_eq;

verus! {

/// Shared, automatable parameters of the component, as stored values.
#[derive(Clone, Copy, Debug, PartialEq, Eq, Structural)]
pub struct Params {
    /// LFO rate in Hz, scaled.
    pub rate_hz: u32,
    /// Modulation depth in milliseconds, scaled.
    pub depth_ms: u32,
    /// Feedback (-1 to 1), stored as `(feedback + 1) * 1_000_000`.
    pub feedback: u32,
    pub bypassed: bool,
}

/// The stored value of the named parameter, if the component has one of that name.
pub open spec fn param_value(p: Params, name: Seq<char>) -> Option<u32> {
    if name == "rate_hz"@ { Some(p.rate_hz) } else if name == "depth_ms"@ { Some(p.depth_ms) } else if name == "feedback"@ { Some(p.feedback) } else { None }
}

/// The parameters with the named one set, if the component has one of that name.
pub open spec fn param_updated(p: Params, name: Seq<char>, value: u32) -> Params {
    if name == "rate_hz"@ { Params { rate_hz: value, ..p } } else if name == "depth_ms"@ { Params { depth_ms: value, ..p } } else if name == "feedback"@ { Params { feedback: value, ..p } } else { p }
}

/// The parameters a new component starts with.
pub open spec fn default_params() -> Params {
    Params {
        rate_hz: 200_000,
        depth_ms: 5_000_000,
        feedback: 1_850_000,
        bypassed: false,
    }
}

impl Default for Params {
    fn default() -> (r: Params)
        ensures
            r == default_params(),
    {
        Params {
            rate_hz: 200_000,
            depth_ms: 5_000_000,
            feedback: 1_850_000,
            bypassed: false,
        }
    }
}

impl Params {
    /// The stored value of a parameter by name, as used for MIDI mapping.
    pub fn get_param(&self, name: &str) -> (r: Option<u32>)
        ensures
            r == param_value(*self, name@),
    {
        if text_eq(name, "rate_hz") {
            Some(self.rate_hz)
        } else if text_eq(name, "depth_ms") {
            Some(self.depth_ms)
        } else if text_eq(name, "feedback") {
            Some(self.feedback)
        } else {
            None
        }
    }

    /// Stores a parameter by name; returns whether the component has one of that name.
    pub fn set_param(&mut self, name: &str, value: u32) -> (found: bool)
        ensures
            found == (param_value(*old(self), name@) is Some),
            *final(self) == param_updated(*old(self), name@, value),
    {
        if text_eq(name, "rate_hz") {
            self.rate_hz = value;
            true
        } else if text_eq(name, "depth_ms") {
            self.depth_ms = value;
            true
        } else if text_eq(name, "feedback") {
            self.feedback = value;
            true
        } else {
            false
        }
    }
}

} // verus!
