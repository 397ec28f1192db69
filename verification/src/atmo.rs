//! The playback behaviours of the generative soundscape ("atmo") layers.

use vstd::prelude::*;

verus! {

/// Defines the playback behavior for an atmo layer.
#[derive(Clone, Copy, Debug, PartialEq, Eq, Structural)]
pub enum PlaybackMode {
    /// Loops a small portion of a long file to create a continuous drone.
    FragmentLooping,
    /// Triggers discrete, full samples, creating a "cloud" of sounds.
    TriggeredEvents,
}

impl Default for PlaybackMode {
    /// New layers trigger events, the simpler mode.
    fn default() -> (r: PlaybackMode)
        ensures
            r == PlaybackMode::TriggeredEvents,
    {
        PlaybackMode::TriggeredEvents
    }
}

} // verus!
