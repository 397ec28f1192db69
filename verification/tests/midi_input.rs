use cypher_looper::midi::{ControlAction, MidiMessage};
use cypher_looper::midi_input::{MidiInputState, MidiStepOutput};
use cypher_looper::settings::{
    ControllableParameter, FullMidiControlId, FullMidiIdentifier, FullMidiNoteId, MidiControlId, MidiControlMode,
};

fn device() -> MidiInputState {
    MidiInputState::new(String::from("Pad"), 0, Some(9))
}

fn cc(channel: u8, cc: u8) -> FullMidiIdentifier {
    FullMidiIdentifier::ControlChange(FullMidiControlId { port_name: String::from("Pad"), channel, cc })
}

fn note(channel: u8, note: u8) -> FullMidiIdentifier {
    FullMidiIdentifier::Note(FullMidiNoteId { port_name: String::from("Pad"), channel, note })
}

#[test]
fn instrument_notes_are_tracked_and_passed_on() {
    let mut s = device();
    let out = s.on_message(&[0x90, 60, 100], 0);
    assert_eq!(out, MidiStepOutput::EngineNote(MidiMessage { status: 0x90, data1: 60, data2: 100 }));
    assert!(s.live_notes.contains(&60));
    s.on_message(&[0x90, 60, 0], 5);
    assert!(s.live_notes.is_empty());
    assert_eq!(s.on_message(&[0x90, 60], 6), MidiStepOutput::Nothing);
}

#[test]
fn learning_maps_the_next_control() {
    let mut s = device();
    s.mappings.insert(cc(0, 1), ControllableParameter::MasterVolume);
    s.learn_target = Some(ControllableParameter::MasterVolume);
    let out = s.on_message(&[0xB0, 7, 30], 10);
    assert_eq!(out, MidiStepOutput::Learned(ControllableParameter::MasterVolume));
    assert_eq!(s.learn_target, None);
    assert_eq!(s.mappings.get(&cc(0, 1)), None);
    assert_eq!(s.mappings.get(&cc(0, 7)), Some(ControllableParameter::MasterVolume));
    assert!(matches!(s.last_control, Some((FullMidiIdentifier::ControlChange(_), 10))));
}

#[test]
fn a_modulation_source_is_learned_from_a_control_change() {
    let mut s = device();
    s.mod_learn_active = true;
    s.learn_target = Some(ControllableParameter::MasterVolume);
    let out = s.on_message(&[0xB3, 21, 64], 0);
    assert_eq!(out, MidiStepOutput::ModSourceLearned(MidiControlId { channel: 3, cc: 21 }));
    assert_eq!(s.learn_target, Some(ControllableParameter::MasterVolume));
}

#[test]
fn control_presses_are_debounced() {
    let mut s = device();
    s.mappings.insert(note(9, 36), ControllableParameter::TransportTogglePlay);
    assert_eq!(s.on_message(&[0x99, 36, 100], 1000), MidiStepOutput::Pressed(ControllableParameter::TransportTogglePlay));
    assert_eq!(s.on_message(&[0x89, 36, 0], 1010), MidiStepOutput::Nothing);
    assert_eq!(s.on_message(&[0x99, 36, 100], 1040), MidiStepOutput::Nothing);
    assert_eq!(s.on_message(&[0x99, 36, 100], 1051), MidiStepOutput::Pressed(ControllableParameter::TransportTogglePlay));
    assert_eq!(s.last_press_ms.get(&note(9, 36)), Some(1051));
}

#[test]
fn a_held_looper_button_clears_its_track_once() {
    let mut s = device();
    s.mappings.insert(cc(0, 20), ControllableParameter::Looper(3));
    s.mappings.insert(cc(0, 21), ControllableParameter::Looper(1));
    assert_eq!(s.on_message(&[0xB0, 21, 127], 100), MidiStepOutput::Pressed(ControllableParameter::Looper(1)));
    assert_eq!(s.on_message(&[0xB0, 20, 127], 200), MidiStepOutput::Pressed(ControllableParameter::Looper(3)));
    assert_eq!(s.on_timer(599), Vec::<usize>::new());
    assert_eq!(s.on_timer(600), vec![1]);
    assert_eq!(s.on_timer(800), vec![3]);
    assert_eq!(s.on_timer(2000), Vec::<usize>::new());
    assert_eq!(s.held_since_ms.len(), 0);
}

#[test]
fn cleared_loopers_come_in_control_order() {
    let mut s = device();
    s.mappings.insert(cc(0, 21), ControllableParameter::Looper(1));
    s.mappings.insert(cc(0, 20), ControllableParameter::Looper(3));
    s.on_message(&[0xB0, 21, 127], 100);
    s.on_message(&[0xB0, 20, 127], 100);
    assert_eq!(s.on_timer(1000), vec![3, 1]);
}

#[test]
fn a_released_looper_button_is_not_cleared() {
    let mut s = device();
    s.mappings.insert(cc(0, 20), ControllableParameter::Looper(3));
    s.on_message(&[0xB0, 20, 127], 100);
    s.on_message(&[0xB0, 20, 0], 300);
    assert_eq!(s.on_timer(1000), Vec::<usize>::new());
}

#[test]
fn values_and_steps_are_passed_on() {
    let mut s = device();
    s.mappings.insert(cc(0, 1), ControllableParameter::MasterVolume);
    s.mappings.insert(cc(0, 2), ControllableParameter::SynthMasterVolume);
    s.modes.insert(cc(0, 2), MidiControlMode::Relative);
    s.inversions.insert(cc(0, 1), true);
    assert_eq!(
        s.on_message(&[0xB0, 1, 27], 0),
        MidiStepOutput::Control(ControlAction::AbsoluteValue { param: ControllableParameter::MasterVolume, value: 100 })
    );
    assert_eq!(
        s.on_message(&[0xB0, 2, 66], 0),
        MidiStepOutput::Control(ControlAction::Relative {
            param: ControllableParameter::SynthMasterVolume,
            steps: 2,
            inverted: false
        })
    );
    assert_eq!(s.on_message(&[0xB0, 3, 66], 0), MidiStepOutput::Nothing);
}

#[test]
fn notes_off_the_control_channel_are_ignored() {
    let mut s = device();
    s.mappings.insert(note(5, 36), ControllableParameter::TransportTogglePlay);
    assert_eq!(s.on_message(&[0x95, 36, 100], 0), MidiStepOutput::Nothing);
    assert!(s.last_control.is_none());
}
