//! A low-frequency oscillator; the rate is stored scaled by 1_000_000.
use vstd::prelude::*;
use crate::text::text_eq;
use vstd::std_specs::convert::FromSpecImpl;

verus! {

/// Shape of the oscillator.
#[derive(Clone, Copy, Debug, PartialEq, Eq, Hash, Structural)]
pub enum LfoWaveform {
    Sine,
    Triangle,
    Saw,
    InvSaw,
    Square,
    Random,
}

/// The mode stored under a numeric code; unknown codes give the first variant.
pub open spec fn lfo_mode_from_code(val: u32) -> LfoWaveform {
    if val == 1 { LfoWaveform::Triangle } else if val == 2 { LfoWaveform::Saw } else if val == 3 { LfoWaveform::InvSaw } else if val == 4 { LfoWaveform::Square } else if val == 5 { LfoWaveform::Random } else { LfoWaveform::Sine }
}

/// The numeric code of a mode (its declaration index).
pub open spec fn lfo_mode_code(m: LfoWaveform) -> u32 {
    match m {
        LfoWaveform::Sine => 0,
        LfoWaveform::Triangle => 1,
        LfoWaveform::Saw => 2,
        LfoWaveform::InvSaw => 3,
        LfoWaveform::Square => 4,
        LfoWaveform::Random => 5,
    }
}

impl From<u32> for LfoWaveform {
    fn from(val: u32) -> (r: LfoWaveform) {
        match val {
            1 => LfoWaveform::Triangle,
            2 => LfoWaveform::Saw,
            3 => LfoWaveform::InvSaw,
            4 => LfoWaveform::Square,
            5 => LfoWaveform::Random,
            _ => LfoWaveform::Sine,
        }
    }
}

impl FromSpecImpl<u32> for LfoWaveform {
    open spec fn obeys_from_spec() -> bool {
        true
    }

    open spec fn from_spec(v: u32) -> LfoWaveform {
        lfo_mode_from_code(v)
    }
}

impl LfoWaveform {
    /// The numeric code under which the mode is stored.
    pub fn code(self) -> (r: u32)
        ensures
            r == lfo_mode_code(self),
    {
        match self {
            LfoWaveform::Sine => 0,
            LfoWaveform::Triangle => 1,
            LfoWaveform::Saw => 2,
            LfoWaveform::InvSaw => 3,
            LfoWaveform::Square => 4,
            LfoWaveform::Random => 5,
        }
    }
}

/// Decoding a stored code gives back the mode it was stored from.
pub proof fn lemma_lfo_mode_code_roundtrip(m: LfoWaveform)
    ensures
        lfo_mode_from_code(lfo_mode_code(m)) == m,
{
}

/// Shared, automatable parameters of the component, as stored values.
#[derive(Clone, Copy, Debug, PartialEq, Eq, Structural)]
pub struct Params {
    /// Waveform (see `LfoWaveform`).
    pub waveform: u32,
    /// Rate in Hz, scaled.
    pub frequency_hz: u32,
    pub bypassed: bool,
}

/// The stored value of the named parameter, if the component has one of that name.
pub open spec fn param_value(p: Params, name: Seq<char>) -> Option<u32> {
    if name == "waveform"@ { Some(p.waveform) } else if name == "frequency_hz"@ { Some(p.frequency_hz) } else { None }
}

/// The parameters with the named one set, if the component has one of that name.
pub open spec fn param_updated(p: Params, name: Seq<char>, value: u32) -> Params {
    if name == "waveform"@ { Params { waveform: value, ..p } } else if name == "frequency_hz"@ { Params { frequency_hz: value, ..p } } else { p }
}

/// The parameters a new component starts with.
pub open spec fn default_params() -> Params {
    Params {
        waveform: 0,
        frequency_hz: 1_000_000,
        bypassed: false,
    }
}

impl Default for Params {
    fn default() -> (r: Params)
        ensures
            r == default_params(),
    {
        Params {
            waveform: 0,
            frequency_hz: 1_000_000,
            bypassed: false,
        }
    }
}

impl Params {
    /// The stored value of a parameter by name, as used for MIDI mapping.
    pub fn get_param(&self, name: &str) -> (r: Option<u32>)
        ensures
            r == param_value(*self, name@),
    {
        if text_eq(name, "waveform") {
            Some(self.waveform)
        } else if text_eq(name, "frequency_hz") {
            Some(self.frequency_hz)
        } else {
            None
        }
    }

    /// Stores a parameter by name; returns whether the component has one of that name.
    pub fn set_param(&mut self, name: &str, value: u32) -> (found: bool)
        ensures
            found == (param_value(*old(self), name@) is Some),
            *final(self) == param_updated(*old(self), name@, value),
    {
        if text_eq(name, "waveform") {
            self.waveform = value;
            true
        } else if text_eq(name, "frequency_hz") {
            self.frequency_hz = value;
            true
        } else {
            false
        }
    }
}

} // verus!
