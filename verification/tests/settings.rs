use cypher_looper::fx::InsertionPoint;
use cypher_looper::settings::{
    ControllableParameter, FullMidiControlId, FullMidiIdentifier, FullMidiNoteId, FxParamIdentifier,
    FxParamName, IdentifierParseError, MidiControlMode,
};

fn id_cc(port: &str, channel: u8, cc: u8) -> FullMidiIdentifier {
    FullMidiIdentifier::ControlChange(FullMidiControlId { port_name: String::from(port), channel, cc })
}

fn note(port: &str, channel: u8, note: u8) -> FullMidiIdentifier {
    FullMidiIdentifier::Note(FullMidiNoteId { port_name: String::from(port), channel, note })
}

#[test]
fn identifiers_are_stored_as_text() {
    assert_eq!(id_cc("Launch Control", 0, 21).to_config_string(), "cc|Launch Control|0|21");
    assert_eq!(note("Pads", 9, 36).to_config_string(), "note|Pads|9|36");
}

#[test]
fn stored_identifiers_read_back() {
    for id in [id_cc("Launch Control", 0, 21), note("Pads", 9, 36), id_cc("", 15, 255)] {
        let text = id.to_config_string();
        assert_eq!(FullMidiIdentifier::parse_config_string(&text), Ok(id));
    }
}

#[test]
fn reading_identifiers_reports_each_error() {
    let parse = FullMidiIdentifier::parse_config_string;
    assert_eq!(parse("cc"), Err(IdentifierParseError::MissingPort));
    assert_eq!(parse("cc|port"), Err(IdentifierParseError::MissingChannel));
    assert_eq!(parse("cc|port|0"), Err(IdentifierParseError::MissingValue));
    assert_eq!(parse("cc|port|x|1"), Err(IdentifierParseError::InvalidChannel));
    assert_eq!(parse("cc|port|256|1"), Err(IdentifierParseError::InvalidChannel));
    assert_eq!(parse("cc|port|0|300"), Err(IdentifierParseError::InvalidValue));
    assert_eq!(parse("pitch|port|0|1"), Err(IdentifierParseError::UnknownType));
}

#[test]
fn identifier_equality_and_copies() {
    let a = id_cc("X", 1, 2);
    assert!(a.same_as(&id_cc("X", 1, 2)));
    assert!(!a.same_as(&id_cc("Y", 1, 2)));
    assert!(!a.same_as(&note("X", 1, 2)));
    assert!(a.duplicate().same_as(&a));
}

#[test]
fn default_control_mode_is_absolute() {
    assert_eq!(MidiControlMode::default(), MidiControlMode::Absolute);
}

#[test]
fn continuous_parameters() {
    assert!(ControllableParameter::MixerVolume(0).is_continuous());
    assert!(ControllableParameter::FxFocusedPresetChange.is_continuous());
    assert!(ControllableParameter::AtmoXY(1).is_continuous());
    assert!(!ControllableParameter::Looper(0).is_continuous());
    assert!(!ControllableParameter::TransportTogglePlay.is_continuous());
}

#[test]
fn fx_parameter_keys() {
    assert_eq!(FxParamName::Bypass.as_str(), "bypassed");
    assert_eq!(FxParamName::WetDry.as_str(), "wet_dry_mix");
    assert_eq!(FxParamName::FrequencyHz.as_str(), "frequency_hz");
    assert_eq!(FxParamName::DepthMs.as_str(), "depth_ms");
}

#[test]
fn parameter_labels() {
    assert_eq!(ControllableParameter::Looper(0).label(), "Looper 1 Trigger");
    assert_eq!(ControllableParameter::MixerToggleSolo(11).label(), "Mixer Ch 12 Solo");
    assert_eq!(ControllableParameter::TransportTogglePlay.label(), "Transport Play/Stop");
    assert_eq!(ControllableParameter::AtmoXY(0).label(), "Atmo Pad X");
    assert_eq!(ControllableParameter::AtmoXY(1).label(), "Atmo Pad Y");
    assert_eq!(
        ControllableParameter::ToggleFxEditor(InsertionPoint::Synth(0)).label(),
        "Toggle FX Editor (Synth Engine 1)"
    );
}

#[test]
fn fx_parameter_labels() {
    let id = FxParamIdentifier { point: InsertionPoint::Master, component_index: 1, param_name: FxParamName::GainDb };
    assert_eq!(ControllableParameter::Fx(id).label(), "FX Master Output:C2:gain_db");
    let rack = FxParamIdentifier { point: InsertionPoint::Looper(3), component_index: usize::MAX, param_name: FxParamName::WetDry };
    assert_eq!(ControllableParameter::Fx(rack).label(), "FX Looper 4:wet_dry_mix");
}
