//! A formant filter; values are stored scaled by 1_000_000, the character offset by one.
use vstd::prelude::*;
use crate::text::text_eq;

verus! {

/// Shared, automatable parameters of the component, as stored values.
#[derive(Clone, Copy, Debug, PartialEq, Eq, Structural)]
pub struct Params {
    /// Formant shift (-1 to 1), stored as `(character + 1) * 1_000_000`.
    pub character: u32,
    /// Resonance of the formant peaks (0 to 1), scaled.
    pub resonance: u32,
    pub bypassed: bool,
}

/// The stored value of the named parameter, if the component has one of that name.
pub open spec fn param_value(p: Params, name: Seq<char>) -> Option<u32> {
    if name == "character"@ { Some(p.character) } else if name == "resonance"@ { Some(p.resonance) } else { None }
}

/// The parameters with the named one set, if the component has one of that name.
pub open spec fn param_updated(p: Params, name: Seq<char>, value: u32) -> Params {
    if name == "character"@ { Params { character: value, ..p } } else if name == "resonance"@ { Params { resonance: value, ..p } } else { p }
}

/// The parameters a new component starts with.
pub open spec fn default_params() -> Params {
    Params {
        character: 1_000_000,
        resonance: 700_000,
        bypassed: false,
    }
}

impl Default for Params {
    fn default() -> (r: Params)
        ensures
            r == default_params(),
    {
        Params {
            character: 1_000_000,
            resonance: 700_000,
            bypassed: false,
        }
    }
}

impl Params {
    /// The stored value of a parameter by name, as used for MIDI mapping.
    pub fn get_param(&self, name: &str) -> (r: Option<u32>)
        ensures
            r == param_value(*self, name@),
    {
        if text_eq(name, "character") {
            Some(self.character)
        } else if text_eq(name, "resonance") {
            Some(self.resonance)
        } else {
            None
        }
    }

    /// Stores a parameter by name; returns whether the component has one of that name.
    pub fn set_param(&mut self, name: &str, value: u32) -> (found: bool)
        ensures
            found == (param_value(*old(self), name@) is Some),
            *final(self) == param_updated(*old(self), name@, value),
    {
        if text_eq(name, "character") {
            self.character = value;
            true
        } else if text_eq(name, "resonance") {
            self.resonance = value;
            true
        } else {
            false
        }
    }
}

} // verus!
