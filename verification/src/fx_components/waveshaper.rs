//! Non-linear distortion; the drive is stored as `drive_db * 100_000`.
use vstd::prelude::*;
use crate::text::text_eq;
use vstd::std_specs::convert::FromSpecImpl;

verus! {

/// Shaping function of the waveshaper.
#[derive(Clone, Copy, Debug, PartialEq, Eq, Hash, Structural)]
pub enum WaveshaperMode {
    HardClip,
    Saturation,
    Sine,
    Fold,
}

/// The mode stored under a numeric code; unknown codes give the first variant.
pub open spec fn waveshaper_mode_from_code(val: u32) -> WaveshaperMode {
    if val == 1 { WaveshaperMode::Saturation } else if val == 2 { WaveshaperMode::Sine } else if val == 3 { WaveshaperMode::Fold } else { WaveshaperMode::HardClip }
}

/// The numeric code of a mode (its declaration index).
pub open spec fn waveshaper_mode_code(m: WaveshaperMode) -> u32 {
    match m {
        WaveshaperMode::HardClip => 0,
        WaveshaperMode::Saturation => 1,
        WaveshaperMode::Sine => 2,
        WaveshaperMode::Fold => 3,
    }
}

impl From<u32> for WaveshaperMode {
    fn from(val: u32) -> (r: WaveshaperMode) {
        match val {
            1 => WaveshaperMode::Saturation,
            2 => WaveshaperMode::Sine,
            3 => WaveshaperMode::Fold,
            _ => WaveshaperMode::HardClip,
        }
    }
}

impl FromSpecImpl<u32> for WaveshaperMode {
    open spec fn obeys_from_spec() -> bool {
        true
    }

    open spec fn from_spec(v: u32) -> WaveshaperMode {
        waveshaper_mode_from_code(v)
    }
}

impl WaveshaperMode {
    /// The numeric code under which the mode is stored.
    pub fn code(self) -> (r: u32)
        ensures
            r == waveshaper_mode_code(self),
    {
        match self {
            WaveshaperMode::HardClip => 0,
            WaveshaperMode::Saturation => 1,
            WaveshaperMode::Sine => 2,
            WaveshaperMode::Fold => 3,
        }
    }
}

/// Decoding a stored code gives back the mode it was stored from.
pub proof fn lemma_waveshaper_mode_code_roundtrip(m: WaveshaperMode)
    ensures
        waveshaper_mode_from_code(waveshaper_mode_code(m)) == m,
{
}

/// Shared, automatable parameters of the component, as stored values.
#[derive(Clone, Copy, Debug, PartialEq, Eq, Structural)]
pub struct Params {
    /// Shaping mode (see `WaveshaperMode`).
    pub mode: u32,
    /// Pre-gain drive in dB, stored as `drive_db * 100_000`.
    pub drive_db: u32,
    pub bypassed: bool,
}

/// The stored value of the named parameter, if the component has one of that name.
pub open spec fn param_value(p: Params, name: Seq<char>) -> Option<u32> {
    if name == "mode"@ { Some(p.mode) } else if name == "drive_db"@ { Some(p.drive_db) } else { None }
}

/// The parameters with the named one set, if the component has one of that name.
pub open spec fn param_updated(p: Params, name: Seq<char>, value: u32) -> Params {
    if name == "mode"@ { Params { mode: value, ..p } } else if name == "drive_db"@ { Params { drive_db: value, ..p } } else { p }
}

/// The parameters a new component starts with.
pub open spec fn default_params() -> Params {
    Params {
        mode: 1,
        drive_db: 0,
        bypassed: false,
    }
}

impl Default for Params {
    fn default() -> (r: Params)
        ensures
            r == default_params(),
    {
        Params {
            mode: 1,
            drive_db: 0,
            bypassed: false,
        }
    }
}

impl Params {
    /// The stored value of a parameter by name, as used for MIDI mapping.
    pub fn get_param(&self, name: &str) -> (r: Option<u32>)
        ensures
            r == param_value(*self, name@),
    {
        if text_eq(name, "mode") {
            Some(self.mode)
        } else if text_eq(name, "drive_db") {
            Some(self.drive_db)
        } else {
            None
        }
    }

    /// Stores a parameter by name; returns whether the component has one of that name.
    pub fn set_param(&mut self, name: &str, value: u32) -> (found: bool)
        ensures
            found == (param_value(*old(self), name@) is Some),
            *final(self) == param_updated(*old(self), name@, value),
    {
        if text_eq(name, "mode") {
            self.mode = value;
            true
        } else if text_eq(name, "drive_db") {
            self.drive_db = value;
            true
        } else {
            false
        }
    }
}

/// The audio-thread state of the component: the parameters it reads.
pub struct Waveshaper {
    params: Params,
}

impl Waveshaper {
    pub fn new(params: Params) -> (r: Waveshaper)
        ensures
            r.params() == params,
    {
        Waveshaper { params }
    }

    pub closed spec fn params(&self) -> Params {
        self.params
    }

    /// The parameters the component reads.
    pub fn current_params(&self) -> (r: Params)
        ensures
            r == self.params(),
    {
        self.params
    }
}

} // verus!
