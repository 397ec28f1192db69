use cypher_looper::fx::{FxComponentType, InsertionPoint};
use cypher_looper::fx_components::ComponentParams;
use cypher_looper::midi::{
    button_action, classify_midi_input, control_action, handle_fx_cc, hold_clears_looper,
    note_control_action, press_takes_effect,
    preset_step_direction, resolve_cc_control, route_engine_note, update_live_notes, ButtonAction,
    ControlAction, MidiInputEvent, MidiMessage, NoteRoute, ResolvedControl,
};
use cypher_looper::midi_map::MidiMap;
use cypher_looper::settings::{
    ControllableParameter, FullMidiControlId, FullMidiIdentifier, FxParamIdentifier, FxParamName,
    MidiControlMode,
};
use std::collections::BTreeSet;

fn cc_id(port: &str, channel: u8, cc: u8) -> FullMidiIdentifier {
    FullMidiIdentifier::ControlChange(FullMidiControlId { port_name: String::from(port), channel, cc })
}

#[test]
fn note_on_the_instrument_channel_goes_to_the_engine() {
    assert_eq!(
        classify_midi_input(&[0x90, 60, 100], 0, None),
        MidiInputEvent::EngineNote {
            message: MidiMessage { status: 0x90, data1: 60, data2: 100 },
            note: 60,
            is_note_on: true,
        }
    );
}

#[test]
fn note_on_with_zero_velocity_is_a_note_off() {
    assert_eq!(
        classify_midi_input(&[0x90, 60, 0], 0, None),
        MidiInputEvent::EngineNote {
            message: MidiMessage { status: 0x90, data1: 60, data2: 0 },
            note: 60,
            is_note_on: false,
        }
    );
}

#[test]
fn note_on_the_control_channel_goes_to_controls() {
    assert_eq!(
        classify_midi_input(&[0x91, 36, 90], 0, Some(1)),
        MidiInputEvent::ControlNote { channel: 1, note: 36, is_note_on: true }
    );
    assert_eq!(classify_midi_input(&[0x92, 36, 90], 0, Some(1)), MidiInputEvent::Ignored);
}

#[test]
fn control_changes_and_other_messages() {
    assert_eq!(
        classify_midi_input(&[0xB3, 7, 100], 0, None),
        MidiInputEvent::ControlChange { channel: 3, cc: 7, value: 100 }
    );
    assert_eq!(classify_midi_input(&[0xE0, 0, 64], 0, None), MidiInputEvent::Ignored);
    assert_eq!(classify_midi_input(&[0x90, 60], 0, None), MidiInputEvent::Ignored);
}

#[test]
fn live_notes_follow_note_on_and_off() {
    let mut held: BTreeSet<u8> = BTreeSet::new();
    update_live_notes(&mut held, 60, true);
    update_live_notes(&mut held, 64, true);
    update_live_notes(&mut held, 60, false);
    assert_eq!(held.into_iter().collect::<Vec<u8>>(), vec![64]);
}

#[test]
fn pad_notes_trigger_loaded_pads() {
    let pads = vec![true; 16];
    let msg = MidiMessage { status: 0x90, data1: 50, data2: 100 };
    assert_eq!(
        route_engine_note(&msg, 0, true, true, &pads),
        NoteRoute::TriggerPad { pad_index: 2, velocity: 100 }
    );
}

#[test]
fn unloaded_pad_falls_through_to_the_synth() {
    let mut pads = vec![true; 16];
    pads[2] = false;
    let msg = MidiMessage { status: 0x90, data1: 50, data2: 100 };
    assert_eq!(
        route_engine_note(&msg, 0, true, true, &pads),
        NoteRoute::SynthNoteOn { note: 50, velocity: 100 }
    );
    assert_eq!(route_engine_note(&msg, 0, true, false, &pads), NoteRoute::Ignore);
}

#[test]
fn note_off_and_other_channels() {
    let pads = vec![true; 16];
    let off = MidiMessage { status: 0x80, data1: 50, data2: 0 };
    assert_eq!(route_engine_note(&off, 0, true, false, &pads), NoteRoute::SynthNoteOff { note: 50 });
    let other = MidiMessage { status: 0x95, data1: 50, data2: 100 };
    assert_eq!(route_engine_note(&other, 0, true, true, &pads), NoteRoute::Ignore);
}

#[test]
fn button_actions() {
    assert_eq!(button_action(ControllableParameter::Looper(3)), Some(ButtonAction::LooperPress(3)));
    assert_eq!(button_action(ControllableParameter::TransportClearAll), Some(ButtonAction::ClearAll));
    assert_eq!(
        button_action(ControllableParameter::FxFocusedPresetChange),
        Some(ButtonAction::NextFxPreset)
    );
    assert_eq!(button_action(ControllableParameter::MasterVolume), None);
}

#[test]
fn absolute_button_presses_above_64() {
    let control = ResolvedControl {
        param: ControllableParameter::Looper(0),
        mode: MidiControlMode::Absolute,
        inverted: false,
    };
    assert_eq!(
        control_action(&control, 127),
        ControlAction::Press { param: ControllableParameter::Looper(0), holds: true }
    );
    assert_eq!(
        control_action(&control, 64),
        ControlAction::Release { param: ControllableParameter::Looper(0), holds: true }
    );
}

#[test]
fn absolute_values_and_inversion() {
    let control = ResolvedControl {
        param: ControllableParameter::MasterVolume,
        mode: MidiControlMode::Absolute,
        inverted: true,
    };
    assert_eq!(
        control_action(&control, 27),
        ControlAction::AbsoluteValue { param: ControllableParameter::MasterVolume, value: 100 }
    );
    let id = FxParamIdentifier { point: InsertionPoint::Master, component_index: 0, param_name: FxParamName::GainDb };
    let fx = ResolvedControl { param: ControllableParameter::Fx(id), mode: MidiControlMode::Absolute, inverted: false };
    assert_eq!(control_action(&fx, 90), ControlAction::FxValue { id, value: 90 });
    let wet = ResolvedControl {
        param: ControllableParameter::FxFocusedWetDry,
        mode: MidiControlMode::Absolute,
        inverted: false,
    };
    assert_eq!(control_action(&wet, 5), ControlAction::FocusedWetDry { value: 5 });
}

#[test]
fn relative_steps_around_64() {
    let control = ResolvedControl {
        param: ControllableParameter::MixerVolume(1),
        mode: MidiControlMode::Relative,
        inverted: false,
    };
    let steps = |v: u8| match control_action(&control, v) {
        ControlAction::Relative { steps, .. } => steps,
        other => panic!("unexpected {:?}", other),
    };
    assert_eq!(steps(65), 1);
    assert_eq!(steps(63), -1);
    assert_eq!(steps(127), 63);
    assert_eq!(steps(200), -120);
}

#[test]
fn notes_press_and_release_controls() {
    assert_eq!(
        note_control_action(ControllableParameter::TransportTogglePlay, true),
        ControlAction::Press { param: ControllableParameter::TransportTogglePlay, holds: false }
    );
    assert_eq!(
        note_control_action(ControllableParameter::Looper(2), false),
        ControlAction::Release { param: ControllableParameter::Looper(2), holds: true }
    );
}

#[test]
fn preset_steps() {
    assert_eq!(preset_step_direction(65), 1);
    assert_eq!(preset_step_direction(64), -1);
    assert_eq!(preset_step_direction(1), -1);
}

#[test]
fn cc_resolution_prefers_the_port_then_any_port() {
    let mut mappings: MidiMap<ControllableParameter> = MidiMap::new();
    let modes: MidiMap<MidiControlMode> = MidiMap::new();
    let mut inversions: MidiMap<bool> = MidiMap::new();
    mappings.insert(cc_id("", 0, 7), ControllableParameter::MasterVolume);
    mappings.insert(cc_id("Pad", 0, 7), ControllableParameter::SynthMasterVolume);
    inversions.insert(cc_id("", 0, 7), true);
    let on_pad = resolve_cc_control(&mappings, &modes, &inversions, &String::from("Pad"), 0, 7);
    assert_eq!(
        on_pad,
        Some(ResolvedControl {
            param: ControllableParameter::SynthMasterVolume,
            mode: MidiControlMode::Absolute,
            inverted: true,
        })
    );
    let elsewhere = resolve_cc_control(&mappings, &modes, &inversions, &String::from("Keys"), 0, 7);
    assert_eq!(elsewhere.unwrap().param, ControllableParameter::MasterVolume);
    assert_eq!(resolve_cc_control(&mappings, &modes, &inversions, &String::from("Keys"), 1, 7), None);
}

#[test]
fn cc_resolution_reads_the_mode() {
    let mut mappings: MidiMap<ControllableParameter> = MidiMap::new();
    let mut modes: MidiMap<MidiControlMode> = MidiMap::new();
    let inversions: MidiMap<bool> = MidiMap::new();
    mappings.insert(cc_id("Enc", 2, 20), ControllableParameter::MixerVolume(0));
    modes.insert(cc_id("", 2, 20), MidiControlMode::Relative);
    let r = resolve_cc_control(&mappings, &modes, &inversions, &String::from("Enc"), 2, 20).unwrap();
    assert_eq!(r.mode, MidiControlMode::Relative);
    assert!(!r.inverted);
}

#[test]
fn fx_cc_sets_the_addressed_parameter() {
    let mut wet = Some(5u32);
    let mut chain = vec![ComponentParams::new(FxComponentType::Gain), ComponentParams::new(FxComponentType::Delay)];
    let id = FxParamIdentifier { point: InsertionPoint::Master, component_index: 1, param_name: FxParamName::TimeMs };
    handle_fx_cc(&mut wet, &mut chain, id, 123);
    assert_eq!(chain[1].get_param("time_ms"), Some(123));
    assert_eq!(chain[0], ComponentParams::new(FxComponentType::Gain));
    assert_eq!(wet, Some(5));
}

#[test]
fn fx_cc_on_wet_dry_sets_the_mix() {
    let mut wet = Some(5u32);
    let mut chain = vec![ComponentParams::new(FxComponentType::Gain)];
    let id = FxParamIdentifier { point: InsertionPoint::Input, component_index: 0, param_name: FxParamName::WetDry };
    handle_fx_cc(&mut wet, &mut chain, id, 999);
    assert_eq!(wet, Some(999));
    assert_eq!(chain[0], ComponentParams::new(FxComponentType::Gain));
    let mut none: Option<u32> = None;
    handle_fx_cc(&mut none, &mut chain, id, 999);
    assert_eq!(none, None);
}

#[test]
fn fx_cc_without_a_target_changes_nothing() {
    let mut wet = None;
    let mut chain = vec![ComponentParams::new(FxComponentType::Gain)];
    let missing_param = FxParamIdentifier { point: InsertionPoint::Master, component_index: 0, param_name: FxParamName::TimeMs };
    handle_fx_cc(&mut wet, &mut chain, missing_param, 7);
    let missing_link = FxParamIdentifier { point: InsertionPoint::Master, component_index: 4, param_name: FxParamName::GainDb };
    handle_fx_cc(&mut wet, &mut chain, missing_link, 7);
    assert_eq!(chain, vec![ComponentParams::new(FxComponentType::Gain)]);
    assert_eq!(wet, None);
}

#[test]
fn presses_are_debounced() {
    assert!(press_takes_effect(None, 0));
    assert!(!press_takes_effect(Some(1000), 1050));
    assert!(press_takes_effect(Some(1000), 1051));
}

#[test]
fn long_hold_clears_a_looper() {
    assert!(!hold_clears_looper(1000, 1499));
    assert!(hold_clears_looper(1000, 1500));
}
