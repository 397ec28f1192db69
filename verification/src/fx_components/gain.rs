//! A simple audio gain component: the stored gain is `(gain_db + 60) * 100_000`.
use vstd::prelude::*;
use crate::text::text_eq;

verus! {

/// Shared, automatable parameters of the component, as stored values.
#[derive(Clone, Copy, Debug, PartialEq, Eq, Structural)]
pub struct Params {
    /// Gain in dB, stored as `(value_db + 60) * 100_000`.
    pub gain_db: u32,
    pub bypassed: bool,
}

/// The stored value of the named parameter, if the component has one of that name.
pub open spec fn param_value(p: Params, name: Seq<char>) -> Option<u32> {
    if name == "gain_db"@ { Some(p.gain_db) } else { None }
}

/// The parameters with the named one set, if the component has one of that name.
pub open spec fn param_updated(p: Params, name: Seq<char>, value: u32) -> Params {
    if name == "gain_db"@ { Params { gain_db: value, ..p } } else { p }
}

/// The parameters a new component starts with.
pub open spec fn default_params() -> Params {
    Params {
        gain_db: 6_000_000,
        bypassed: false,
    }
}

impl Default for Params {
    fn default() -> (r: Params)
        ensures
            r == default_params(),
    {
        Params {
            gain_db: 6_000_000,
            bypassed: false,
        }
    }
}

impl Params {
    /// The stored value of a parameter by name, as used for MIDI mapping.
    pub fn get_param(&self, name: &str) -> (r: Option<u32>)
        ensures
            r == param_value(*self, name@),
    {
        if text_eq(name, "gain_db") {
            Some(self.gain_db)
        } else {
            None
        }
    }

    /// Stores a parameter by name; returns whether the component has one of that name.
    pub fn set_param(&mut self, name: &str, value: u32) -> (found: bool)
        ensures
            found == (param_value(*old(self), name@) is Some),
            *final(self) == param_updated(*old(self), name@, value),
    {
        if text_eq(name, "gain_db") {
            self.gain_db = value;
            true
        } else {
            false
        }
    }
}

/// The audio-thread state of the component: the parameters it reads.
pub struct Gain {
    params: Params,
}

impl Gain {
    pub fn new(params: Params) -> (r: Gain)
        ensures
            r.params() == params,
    {
        Gain { params }
    }

    pub closed spec fn params(&self) -> Params {
        self.params
    }

    /// The parameters the component reads.
    pub fn current_params(&self) -> (r: Params)
        ensures
            r == self.params(),
    {
        self.params
    }
}

} // verus!
