use cypher_looper::atmo::PlaybackMode;
use cypher_looper::synth::{FilterMode, LfoRateMode, LfoWaveform, ModDestination, ModSource};
use cypher_looper::settings::MidiControlId;
use cypher_looper::synth::{
    midi_to_note_name, choose_sample_slot, choose_voice, mono_survivor, voices_playing_note, AdsrState, VoiceInfo,
    NUM_SAMPLE_SLOTS,
};
use cypher_looper::ui::SynthUISection;

fn voice(note_id: u8, amp_state: AdsrState, age: u32) -> VoiceInfo {
    VoiceInfo { note_id, amp_state, age, has_sample: true }
}

#[test]
fn envelope_stages_on_note_events() {
    assert_eq!(AdsrState::Sustain.after_note_on(), AdsrState::Attack);
    assert_eq!(AdsrState::Idle.after_note_on(), AdsrState::Attack);
    assert_eq!(AdsrState::Decay.after_note_off(), AdsrState::Release);
    assert_eq!(AdsrState::Idle.after_note_off(), AdsrState::Idle);
}

#[test]
fn notes_pick_their_octave_slot() {
    let all = vec![true; NUM_SAMPLE_SLOTS];
    assert_eq!(choose_sample_slot(60, &all), Some(4));
    assert_eq!(choose_sample_slot(0, &all), Some(0));
    assert_eq!(choose_sample_slot(20, &all), Some(0));
    assert_eq!(choose_sample_slot(127, &all), Some(7));
}

#[test]
fn missing_slot_falls_back_up_then_down() {
    let mut loaded = vec![false; NUM_SAMPLE_SLOTS];
    loaded[6] = true;
    assert_eq!(choose_sample_slot(60, &loaded), Some(6));
    loaded[6] = false;
    loaded[2] = true;
    loaded[1] = true;
    assert_eq!(choose_sample_slot(60, &loaded), Some(2));
    assert_eq!(choose_sample_slot(60, &vec![false; NUM_SAMPLE_SLOTS]), None);
}

#[test]
fn voice_stealing_prefers_idle_then_released_then_oldest() {
    let voices = vec![
        voice(60, AdsrState::Sustain, 900),
        voice(62, AdsrState::Release, 10),
        voice(64, AdsrState::Idle, 5),
    ];
    assert_eq!(choose_voice(&voices), Some(2));
    let busy = vec![voice(60, AdsrState::Sustain, 900), voice(62, AdsrState::Attack, 1000), voice(64, AdsrState::Decay, 1000)];
    assert_eq!(choose_voice(&busy), Some(2));
    assert_eq!(choose_voice(&Vec::new()), None);
}

#[test]
fn voices_playing_a_note() {
    let mut voices = vec![voice(60, AdsrState::Sustain, 1), voice(60, AdsrState::Idle, 2), voice(61, AdsrState::Attack, 3)];
    voices.push(VoiceInfo { note_id: 60, amp_state: AdsrState::Decay, age: 4, has_sample: false });
    assert_eq!(voices_playing_note(&voices, 60), vec![true, false, false, false]);
    assert!(voices[0].is_active());
    assert!(!voices[3].is_active());
}

#[test]
fn mono_mode_keeps_the_longest_sounding_voice() {
    let voices = vec![voice(60, AdsrState::Sustain, 50), voice(62, AdsrState::Sustain, 20), voice(64, AdsrState::Idle, 90)];
    assert_eq!(mono_survivor(&voices), Some(0));
    let tied = vec![voice(60, AdsrState::Sustain, 50), voice(62, AdsrState::Release, 50)];
    assert_eq!(mono_survivor(&tied), Some(1));
    let single = vec![voice(60, AdsrState::Sustain, 50), voice(64, AdsrState::Idle, 0)];
    assert_eq!(mono_survivor(&single), None);
}

#[test]
fn modulation_names() {
    assert_eq!(FilterMode::BandPass.label(), "Band Pass");
    assert_eq!(LfoWaveform::Wavetable3.label(), "Wavetable 3");
    assert_eq!(LfoWaveform::InvSaw.label(), "InvSaw");
    assert_eq!(ModDestination::WavetablePosition.label(), "WT Position");
    assert_eq!(ModSource::Velocity.label(), "Velocity");
    assert_eq!(ModSource::MidiCC(MidiControlId { channel: 0, cc: 74 }).label(), "MIDI CC 74 (Ch 1)");
    assert_ne!(LfoRateMode::Hz, LfoRateMode::Sync);
}

#[test]
fn editor_section_names() {
    assert_eq!(SynthUISection::VolumeEnv.label(), "Env 1");
    assert_eq!(SynthUISection::Lfo2.label(), "LFO 2");
    assert_eq!(SynthUISection::ModMatrix.label(), "Mod Matrix");
}

#[test]
fn atmo_layers_default_to_triggered_events() {
    assert_eq!(PlaybackMode::default(), PlaybackMode::TriggeredEvents);
}

#[test]
fn note_names() {
    assert_eq!(midi_to_note_name(60), "C4");
    assert_eq!(midi_to_note_name(69), "A4");
    assert_eq!(midi_to_note_name(0), "C-1");
    assert_eq!(midi_to_note_name(11), "B-1");
    assert_eq!(midi_to_note_name(127), "G9");
    assert_eq!(midi_to_note_name(200), "G#-5");
    assert_eq!(midi_to_note_name(255), "D#-1");
}
