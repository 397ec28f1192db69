//! A state variable filter; frequency and resonance are stored scaled by 1_000_000.
use vstd::prelude::*;
use crate::text::text_eq;
use vstd::std_specs::convert::FromSpecImpl;

verus! {

/// Filter response: low-pass, high-pass or band-pass.
#[derive(Clone, Copy, Debug, PartialEq, Eq, Hash, Structural)]
pub enum FilterMode {
    LowPass,
    HighPass,
    BandPass,
}

/// The mode stored under a numeric code; unknown codes give the first variant.
pub open spec fn filter_mode_from_code(val: u32) -> FilterMode {
    if val == 1 { FilterMode::HighPass } else if val == 2 { FilterMode::BandPass } else { FilterMode::LowPass }
}

/// The numeric code of a mode (its declaration index).
pub open spec fn filter_mode_code(m: FilterMode) -> u32 {
    match m {
        FilterMode::LowPass => 0,
        FilterMode::HighPass => 1,
        FilterMode::BandPass => 2,
    }
}

impl From<u32> for FilterMode {
    fn from(val: u32) -> (r: FilterMode) {
        match val {
            1 => FilterMode::HighPass,
            2 => FilterMode::BandPass,
            _ => FilterMode::LowPass,
        }
    }
}

impl FromSpecImpl<u32> for FilterMode {
    open spec fn obeys_from_spec() -> bool {
        true
    }

    open spec fn from_spec(v: u32) -> FilterMode {
        filter_mode_from_code(v)
    }
}

impl FilterMode {
    /// The numeric code under which the mode is stored.
    pub fn code(self) -> (r: u32)
        ensures
            r == filter_mode_code(self),
    {
        match self {
            FilterMode::LowPass => 0,
            FilterMode::HighPass => 1,
            FilterMode::BandPass => 2,
        }
    }
}

/// Decoding a stored code gives back the mode it was stored from.
pub proof fn lemma_filter_mode_code_roundtrip(m: FilterMode)
    ensures
        filter_mode_from_code(filter_mode_code(m)) == m,
{
}

/// Shared, automatable parameters of the component, as stored values.
#[derive(Clone, Copy, Debug, PartialEq, Eq, Structural)]
pub struct Params {
    /// Filter mode (see `FilterMode`).
    pub mode: u32,
    /// Cutoff frequency in Hz, scaled.
    pub frequency_hz: u32,
    /// Resonance (0 to 1), scaled.
    pub resonance: u32,
    pub bypassed: bool,
}

/// The stored value of the named parameter, if the component has one of that name.
pub open spec fn param_value(p: Params, name: Seq<char>) -> Option<u32> {
    if name == "mode"@ { Some(p.mode) } else if name == "frequency_hz"@ { Some(p.frequency_hz) } else if name == "resonance"@ { Some(p.resonance) } else { None }
}

/// The parameters with the named one set, if the component has one of that name.
pub open spec fn param_updated(p: Params, name: Seq<char>, value: u32) -> Params {
    if name == "mode"@ { Params { mode: value, ..p } } else if name == "frequency_hz"@ { Params { frequency_hz: value, ..p } } else if name == "resonance"@ { Params { resonance: value, ..p } } else { p }
}

/// The parameters a new component starts with.
pub open spec fn default_params() -> Params {
    Params {
        mode: 0,
        frequency_hz: 1_000_000_000,
        resonance: 100_000,
        bypassed: false,
    }
}

impl Default for Params {
    fn default() -> (r: Params)
        ensures
            r == default_params(),
    {
        Params {
            mode: 0,
            frequency_hz: 1_000_000_000,
            resonance: 100_000,
            bypassed: false,
        }
    }
}

impl Params {
    /// The stored value of a parameter by name, as used for MIDI mapping.
    pub fn get_param(&self, name: &str) -> (r: Option<u32>)
        ensures
            r == param_value(*self, name@),
    {
        if text_eq(name, "mode") {
            Some(self.mode)
        } else if text_eq(name, "frequency_hz") {
            Some(self.frequency_hz)
        } else if text_eq(name, "resonance") {
            Some(self.resonance)
        } else {
            None
        }
    }

    /// Stores a parameter by name; returns whether the component has one of that name.
    pub fn set_param(&mut self, name: &str, value: u32) -> (found: bool)
        ensures
            found == (param_value(*old(self), name@) is Some),
            *final(self) == param_updated(*old(self), name@, value),
    {
        if text_eq(name, "mode") {
            self.mode = value;
            true
        } else if text_eq(name, "frequency_hz") {
            self.frequency_hz = value;
            true
        } else if text_eq(name, "resonance") {
            self.resonance = value;
            true
        } else {
            false
        }
    }
}

} // verus!
