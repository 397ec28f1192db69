//! Verified core logic of the Cypher looper: the looper/transport state
//! machine, sampler pad playback, music theory and the theory keyboard
//! overview, MIDI identifiers, mappings, routing decisions and the input
//! state of a MIDI device, the parameter model of the effect
//! components, the synth engines' vocabulary, waveform slicing and the asset
//! library's folder trees.

pub mod looper;
pub mod transport;
pub mod pads;
pub mod theory;
pub mod theory_display;
pub mod settings;
pub mod midi_map;
pub mod midi;
pub mod midi_input;
pub mod fx;
pub mod fx_components;
pub mod synth;
pub mod atmo;
pub mod ui;
pub mod slicing;
pub mod asset;
pub mod notes;
pub mod text;
