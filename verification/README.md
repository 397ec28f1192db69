# cypher_looper

The verified core of a 12-track music looper with synthesizers, a pad
sampler and a music-theory keyboard overview.

`src/` is checked by Verus. It holds:

- `transport.rs` – the looper/transport state machine of the audio engine
  (arming, recording the first loop, cycle boundaries, overdubbing, clearing,
  mixer mute/solo, instrument switches, and one sample of an audio block in
  the engine's order), with its invariants and laws;
- `pads.rs` – playback of the sampler's pads;
- `theory.rs`, `theory_display.rs` – scales, chord recognition and
  suggestions, and the sticky keyboard overview built from them;
- `midi.rs`, `midi_map.rs`, `midi_input.rs`, `settings.rs` – MIDI message
  classification, note routing, control mappings kept in identifier order
  (with MIDI learn), control actions, the input state machine of a device
  (debounced presses, held looper buttons) and the stored form of MIDI
  identifiers;
- `fx.rs`, `fx_components/` – effect insertion points and the stored
  parameters of each effect component;
- `synth.rs`, `atmo.rs`, `ui.rs` – voice and sample-slot
  choices and the vocabulary of the synth engines and the user interface;
- `slicing.rs` – trimming silence and slicing a waveform view;
- `asset.rs` – the folder trees of the asset library, kept in order;
- `text.rs`, `notes.rs` – decimal text, separators, text and path order and
  sorted note sets.

`app/` is a small command-line front end: settings and chord-style files,
directory scanning, the MIDI input callback and the floating-point parameter
scaling.
