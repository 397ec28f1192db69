use cypher_looper::midi_map::MidiMap;
use cypher_looper::notes::sorted_notes;
use cypher_looper::looper::LooperState;
use cypher_looper::midi_map::compare_ids;
use cypher_looper::settings::{ControllableParameter, FullMidiControlId, FullMidiIdentifier, FullMidiNoteId};
use cypher_looper::text::{compare_text, parse_unsigned, split_once_at, Precedence};
use std::collections::BTreeSet;

fn map_cc(channel: u8, cc: u8) -> FullMidiIdentifier {
    FullMidiIdentifier::ControlChange(FullMidiControlId { port_name: String::from("Dev"), channel, cc })
}

#[test]
fn insert_get_remove() {
    let mut m: MidiMap<ControllableParameter> = MidiMap::new();
    assert_eq!(m.len(), 0);
    m.insert(map_cc(0, 1), ControllableParameter::MasterVolume);
    m.insert(map_cc(0, 2), ControllableParameter::Looper(0));
    m.insert(map_cc(0, 1), ControllableParameter::LimiterThreshold);
    assert_eq!(m.len(), 2);
    assert_eq!(m.get(&map_cc(0, 1)), Some(ControllableParameter::LimiterThreshold));
    assert_eq!(m.remove(&map_cc(0, 2)), Some(ControllableParameter::Looper(0)));
    assert_eq!(m.get(&map_cc(0, 2)), None);
    assert_eq!(m.remove(&map_cc(0, 2)), None);
    assert_eq!(m.len(), 1);
}

#[test]
fn learning_moves_a_parameter_to_one_control() {
    let mut m: MidiMap<ControllableParameter> = MidiMap::new();
    m.insert(map_cc(0, 1), ControllableParameter::MasterVolume);
    m.insert(map_cc(0, 2), ControllableParameter::Looper(0));
    m.learn(map_cc(0, 3), ControllableParameter::MasterVolume);
    assert_eq!(m.get(&map_cc(0, 1)), None);
    assert_eq!(m.get(&map_cc(0, 2)), Some(ControllableParameter::Looper(0)));
    assert_eq!(m.get(&map_cc(0, 3)), Some(ControllableParameter::MasterVolume));
    assert_eq!(m.to_vec().len(), 2);
}

#[test]
fn held_notes_in_order() {
    let held: BTreeSet<u8> = [67, 60, 64].into_iter().collect();
    assert_eq!(sorted_notes(&held), vec![60, 64, 67]);
}

#[test]
fn looper_state_codes_round_trip() {
    for state in [
        LooperState::Empty,
        LooperState::Armed,
        LooperState::Recording,
        LooperState::Playing,
        LooperState::Overdubbing,
        LooperState::Stopped,
    ] {
        assert_eq!(LooperState::from(state.code()), state);
    }
}

#[test]
fn looper_state_codes() {
    assert_eq!(LooperState::from(3u8), LooperState::Playing);
    assert_eq!(LooperState::from(42u8), LooperState::Empty);
    assert_eq!(LooperState::Stopped.code(), 5);
}

#[test]
fn number_and_separator_helpers() {
    assert_eq!(parse_unsigned("42", 100), Some(42));
    assert_eq!(parse_unsigned("101", 100), None);
    assert_eq!(parse_unsigned("", 100), None);
    assert_eq!(split_once_at("a_b_c", '_'), Some((String::from("a"), String::from("b_c"))));
    assert_eq!(split_once_at("abc", '_'), None);
}

fn port_cc(port: &str, channel: u8, cc: u8) -> FullMidiIdentifier {
    FullMidiIdentifier::ControlChange(FullMidiControlId { port_name: String::from(port), channel, cc })
}

fn port_note(port: &str, channel: u8, note: u8) -> FullMidiIdentifier {
    FullMidiIdentifier::Note(FullMidiNoteId { port_name: String::from(port), channel, note })
}

#[test]
fn entries_come_in_identifier_order() {
    let ids = vec![
        port_note("A", 0, 1),
        port_cc("Dev", 1, 0),
        port_cc("Dev", 0, 9),
        port_cc("", 5, 5),
        port_cc("Dev", 0, 2),
        port_cc("Bass", 15, 127),
        port_note("", 3, 3),
    ];
    let mut m: MidiMap<u64> = MidiMap::new();
    for (i, id) in ids.iter().enumerate() {
        m.insert(id.clone(), i as u64);
    }
    let mut expected = ids.clone();
    expected.sort();
    let listed: Vec<FullMidiIdentifier> = m.to_vec().into_iter().map(|(id, _)| id).collect();
    assert_eq!(listed, expected);
    assert_eq!(listed[0], port_cc("", 5, 5));
    assert_eq!(listed[6], port_note("A", 0, 1));
}

#[test]
fn identifiers_compare_as_their_derived_order() {
    let ids = vec![port_cc("a", 1, 2), port_cc("ab", 0, 0), port_cc("a", 1, 3), port_note("a", 0, 0), port_cc("B", 9, 9)];
    for a in &ids {
        for b in &ids {
            let expected = if a < b {
                Precedence::Before
            } else if a == b {
                Precedence::Same
            } else {
                Precedence::After
            };
            assert_eq!(compare_ids(a, b), expected);
        }
    }
}

#[test]
fn texts_compare_as_strings_do() {
    let words = ["", "a", "ab", "b", "B", "é", "z", "aé", "a-b", "a/b"];
    for a in words {
        for b in words {
            let expected = if a < b {
                Precedence::Before
            } else if a == b {
                Precedence::Same
            } else {
                Precedence::After
            };
            assert_eq!(compare_text(a, b, false), expected);
        }
    }
}

#[test]
fn paths_compare_component_by_component() {
    assert_eq!(compare_text("/lib/a/b.wav", "/lib/a-b.wav", true), Precedence::Before);
    assert_eq!(compare_text("/lib/a/b.wav", "/lib/a-b.wav", false), Precedence::After);
    assert_eq!(compare_text("/lib/a", "/lib/a/b", true), Precedence::Before);
    assert_eq!(compare_text("/x", "x", true), Precedence::Before);
    assert_eq!(compare_text("/lib/b", "/lib/b", true), Precedence::Same);
}
