//! Looper track states and the per-track model used by the transport.

use vstd::prelude::*;
use vstd::std_specs::convert::FromSpecImpl;

verus! {

/// Number of looper tracks (and mixer channels) in the application.
pub const NUM_LOOPERS: usize = 12;

/// Number of peak values kept for a looper's waveform overview.
pub const WAVEFORM_DOWNSAMPLE_SIZE: usize = 512;

/// The life cycle of a looper track.
#[derive(Clone, Copy, Debug, PartialEq, Eq, Structural)]
pub enum LooperState {
    Empty,
    Armed,
    Recording,
    Playing,
    Overdubbing,
    Stopped,
}

/// The state stored under a numeric code; unknown codes fall back to `Empty`.
pub open spec fn looper_state_from_code(val: u8) -> LooperState {
    if val == 1 {
        LooperState::Armed
    } else if val == 2 {
        LooperState::Recording
    } else if val == 3 {
        LooperState::Playing
    } else if val == 4 {
        LooperState::Overdubbing
    } else if val == 5 {
        LooperState::Stopped
    } else {
        LooperState::Empty
    }
}

/// The numeric code under which a state is stored (its declaration index).
pub open spec fn looper_state_code(state: LooperState) -> u8 {
    match state {
        LooperState::Empty => 0,
        LooperState::Armed => 1,
        LooperState::Recording => 2,
        LooperState::Playing => 3,
        LooperState::Overdubbing => 4,
        LooperState::Stopped => 5,
    }
}

impl LooperState {
    /// The numeric code of this state, as shared with the user interface.
    pub fn code(self) -> (r: u8)
        ensures
            r == looper_state_code(self),
    {
        match self {
            LooperState::Empty => 0,
            LooperState::Armed => 1,
            LooperState::Recording => 2,
            LooperState::Playing => 3,
            LooperState::Overdubbing => 4,
            LooperState::Stopped => 5,
        }
    }
}

impl From<u8> for LooperState {
    fn from(val: u8) -> (r: LooperState) {
        match val {
            0 => LooperState::Empty,
            1 => LooperState::Armed,
            2 => LooperState::Recording,
            3 => LooperState::Playing,
            4 => LooperState::Overdubbing,
            5 => LooperState::Stopped,
            _ => LooperState::Empty,
        }
    }
}

impl FromSpecImpl<u8> for LooperState {
    open spec fn obeys_from_spec() -> bool {
        true
    }

    open spec fn from_spec(v: u8) -> LooperState {
        looper_state_from_code(v)
    }
}

/// Decoding a stored code gives back the state it was stored from.
pub proof fn lemma_state_code_roundtrip(state: LooperState)
    ensures
        looper_state_from_code(looper_state_code(state)) == state,
{
}

} // verus!
