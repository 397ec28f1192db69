//! MIDI control identifiers and the parameters a MIDI control can be mapped to.

use vstd::prelude::*;
use crate::fx::{insertion_point_label, label_fits, InsertionPoint};
use crate::text::{
    bar_join, decimal, has_no_bar, lemma_decimal_has_no_bar, lemma_parse_decimal,
    lemma_split_bar_join, parse_unsigned, parse_unsigned_spec, push_decimal, split_at_bar, split_bar,
    text_eq,
};
use vstd::string::StringExecFns;

verus! {

/// A compact identifier of a MIDI CC message, used for real-time modulation.
#[derive(Clone, Copy, Debug, PartialEq, Eq, Hash, PartialOrd, Ord, Structural)]
pub struct MidiControlId {
    pub channel: u8,
    pub cc: u8,
}

/// A control change on a given device port and channel.
#[derive(Clone, Debug, PartialEq, Eq, Hash, PartialOrd, Ord)]
pub struct FullMidiControlId {
    pub port_name: String,
    pub channel: u8,
    pub cc: u8,
}

/// A note on a given device port and channel.
#[derive(Clone, Debug, PartialEq, Eq, Hash, PartialOrd, Ord)]
pub struct FullMidiNoteId {
    pub port_name: String,
    pub channel: u8,
    pub note: u8,
}

/// A MIDI control that can be mapped to a parameter: a control change or a note.
#[derive(Clone, Debug, PartialEq, Eq, Hash, PartialOrd, Ord)]
pub enum FullMidiIdentifier {
    ControlChange(FullMidiControlId),
    Note(FullMidiNoteId),
}

/// The mathematical content of an identifier: whether it is a control change,
/// the port name, the channel and the controller or note number.
pub struct MidiIdView {
    pub is_cc: bool,
    pub port: Seq<char>,
    pub channel: u8,
    pub number: u8,
}

impl View for FullMidiIdentifier {
    type V = MidiIdView;

    open spec fn view(&self) -> MidiIdView {
        match self {
            FullMidiIdentifier::ControlChange(id) => MidiIdView {
                is_cc: true,
                port: id.port_name@,
                channel: id.channel,
                number: id.cc,
            },
            FullMidiIdentifier::Note(id) => MidiIdView {
                is_cc: false,
                port: id.port_name@,
                channel: id.channel,
                number: id.note,
            },
        }
    }
}

impl FullMidiIdentifier {
    /// Whether two identifiers name the same control.
    pub fn same_as(&self, other: &FullMidiIdentifier) -> (r: bool)
        ensures
            r == (self@ == other@),
    {
        match (self, other) {
            (FullMidiIdentifier::ControlChange(a), FullMidiIdentifier::ControlChange(b)) => {
                a.channel == b.channel && a.cc == b.cc && a.port_name == b.port_name
            },
            (FullMidiIdentifier::Note(a), FullMidiIdentifier::Note(b)) => {
                a.channel == b.channel && a.note == b.note && a.port_name == b.port_name
            },
            _ => false,
        }
    }

    /// A copy of this identifier.
    pub fn duplicate(&self) -> (r: FullMidiIdentifier)
        ensures
            r@ == self@,
    {
        match self {
            FullMidiIdentifier::ControlChange(id) => FullMidiIdentifier::ControlChange(FullMidiControlId {
                port_name: id.port_name.clone(),
                channel: id.channel,
                cc: id.cc,
            }),
            FullMidiIdentifier::Note(id) => FullMidiIdentifier::Note(FullMidiNoteId {
                port_name: id.port_name.clone(),
                channel: id.channel,
                note: id.note,
            }),
        }
    }
}

/// How a MIDI control's value is interpreted.
#[derive(Clone, Copy, Debug, PartialEq, Eq, Structural)]
pub enum MidiControlMode {
    Absolute,
    Relative,
}

impl Default for MidiControlMode {
    fn default() -> (r: MidiControlMode)
        ensures
            r == MidiControlMode::Absolute,
    {
        MidiControlMode::Absolute
    }
}

/// Uniquely identifies a single parameter within a specific FX rack.
#[derive(Clone, Copy, Debug, PartialEq, Eq, Hash, PartialOrd, Ord, Structural)]
pub struct FxParamIdentifier {
    pub point: InsertionPoint,
    pub component_index: usize,
    pub param_name: FxParamName,
}

/// Names of the parameters of effect components.
#[derive(Clone, Copy, Debug, PartialEq, Eq, Hash, PartialOrd, Ord, Structural)]
pub enum FxParamName {
    Bypass,
    WetDry,
    GainDb,
    TimeMs,
    Feedback,
    Damping,
    Mode,
    FrequencyHz,
    Resonance,
    Waveform,
    AttackMs,
    ReleaseMs,
    DriveDb,
    BitDepth,
    Downsample,
    Size,
    Decay,
    RateHz,
    DepthMs,
}

/// The key under which each parameter is stored and looked up.
pub open spec fn fx_param_key(name: FxParamName) -> Seq<char> {
    match name {
        FxParamName::Bypass => "bypassed"@,
        FxParamName::WetDry => "wet_dry_mix"@,
        FxParamName::GainDb => "gain_db"@,
        FxParamName::TimeMs => "time_ms"@,
        FxParamName::Feedback => "feedback"@,
        FxParamName::Damping => "damping"@,
        FxParamName::Mode => "mode"@,
        FxParamName::FrequencyHz => "frequency_hz"@,
        FxParamName::Resonance => "resonance"@,
        FxParamName::Waveform => "waveform"@,
        FxParamName::AttackMs => "attack_ms"@,
        FxParamName::ReleaseMs => "release_ms"@,
        FxParamName::DriveDb => "drive_db"@,
        FxParamName::BitDepth => "bit_depth"@,
        FxParamName::Downsample => "downsample"@,
        FxParamName::Size => "size"@,
        FxParamName::Decay => "decay"@,
        FxParamName::RateHz => "rate_hz"@,
        FxParamName::DepthMs => "depth_ms"@,
    }
}

impl FxParamName {
    /// The key under which the parameter is stored.
    pub fn as_str(&self) -> (r: &'static str)
        ensures
            r@ == fx_param_key(*self),
    {
        match self {
            FxParamName::Bypass => "bypassed",
            FxParamName::WetDry => "wet_dry_mix",
            FxParamName::GainDb => "gain_db",
            FxParamName::TimeMs => "time_ms",
            FxParamName::Feedback => "feedback",
            FxParamName::Damping => "damping",
            FxParamName::Mode => "mode",
            FxParamName::FrequencyHz => "frequency_hz",
            FxParamName::Resonance => "resonance",
            FxParamName::Waveform => "waveform",
            FxParamName::AttackMs => "attack_ms",
            FxParamName::ReleaseMs => "release_ms",
            FxParamName::DriveDb => "drive_db",
            FxParamName::BitDepth => "bit_depth",
            FxParamName::Downsample => "downsample",
            FxParamName::Size => "size",
            FxParamName::Decay => "decay",
            FxParamName::RateHz => "rate_hz",
            FxParamName::DepthMs => "depth_ms",
        }
    }
}

/// Everything a MIDI control can be mapped to.
#[derive(Clone, Copy, Debug, PartialEq, Eq, Hash, PartialOrd, Ord, Structural)]
pub enum ControllableParameter {
    Looper(usize),
    MixerVolume(usize),
    MixerToggleMute(usize),
    MixerToggleSolo(usize),
    SynthToggleActive,
    SynthMasterVolume,
    ToggleSynthEditor,
    SamplerToggleActive,
    SamplerMasterVolume,
    ToggleSamplerEditor,
    InputToggleArm,
    InputToggleMonitor,
    TransportTogglePlay,
    TransportToggleMuteAll,
    TransportClearAll,
    TransportToggleRecord,
    MasterVolume,
    LimiterThreshold,
    Fx(FxParamIdentifier),
    FxFocusedWetDry,
    FxFocusedPresetChange,
    ToggleFxEditor(InsertionPoint),
    AtmoMasterVolume,
    AtmoXY(u8),
    AtmoLayerVolume(usize),
    ToggleAtmoEditor,
    MetronomeVolume,
    MetronomePitch,
    MetronomeToggleMute,
}

/// Parameters driven by a continuous value (faders and knobs) rather than by presses.
pub open spec fn is_continuous_parameter(p: ControllableParameter) -> bool {
    match p {
        ControllableParameter::MixerVolume(_)
        | ControllableParameter::SynthMasterVolume
        | ControllableParameter::SamplerMasterVolume
        | ControllableParameter::MasterVolume
        | ControllableParameter::LimiterThreshold
        | ControllableParameter::Fx(_)
        | ControllableParameter::FxFocusedWetDry
        | ControllableParameter::FxFocusedPresetChange
        | ControllableParameter::AtmoMasterVolume
        | ControllableParameter::AtmoXY(_)
        | ControllableParameter::AtmoLayerVolume(_)
        | ControllableParameter::MetronomeVolume
        | ControllableParameter::MetronomePitch => true,
        _ => false,
    }
}

impl ControllableParameter {
    /// Whether the parameter takes a continuous value rather than presses.
    pub fn is_continuous(&self) -> (r: bool)
        ensures
            r == is_continuous_parameter(*self),
    {
        match self {
            ControllableParameter::MixerVolume(_)
            | ControllableParameter::SynthMasterVolume
            | ControllableParameter::SamplerMasterVolume
            | ControllableParameter::MasterVolume
            | ControllableParameter::LimiterThreshold
            | ControllableParameter::Fx(_)
            | ControllableParameter::FxFocusedWetDry
            | ControllableParameter::FxFocusedPresetChange
            | ControllableParameter::AtmoMasterVolume
            | ControllableParameter::AtmoXY(_)
            | ControllableParameter::AtmoLayerVolume(_)
            | ControllableParameter::MetronomeVolume
            | ControllableParameter::MetronomePitch => true,
            _ => false,
        }
    }
}


/// The one-based number shown for a zero-based index.
pub open spec fn shown_number(i: usize) -> Seq<char> {
    decimal((i + 1) as nat)
}

/// The name under which a parameter is shown in the MIDI mapping list.
pub open spec fn parameter_label(p: ControllableParameter) -> Seq<char> {
    match p {
        ControllableParameter::Looper(i) => "Looper "@ + shown_number(i) + " Trigger"@,
        ControllableParameter::MixerVolume(i) => "Mixer Ch "@ + shown_number(i) + " Volume"@,
        ControllableParameter::MixerToggleMute(i) => "Mixer Ch "@ + shown_number(i) + " Mute"@,
        ControllableParameter::MixerToggleSolo(i) => "Mixer Ch "@ + shown_number(i) + " Solo"@,
        ControllableParameter::AtmoLayerVolume(i) => "Atmo Layer "@ + shown_number(i) + " Volume"@,
        ControllableParameter::Fx(id) => if id.component_index == usize::MAX {
            "FX "@ + insertion_point_label(id.point) + ":"@ + fx_param_key(id.param_name)
        } else {
            "FX "@ + insertion_point_label(id.point) + ":C"@ + shown_number(id.component_index) + ":"@
                + fx_param_key(id.param_name)
        },
        ControllableParameter::ToggleFxEditor(point) => "Toggle FX Editor ("@ + insertion_point_label(point) + ")"@,
        ControllableParameter::AtmoXY(axis) => "Atmo Pad "@ + (if axis == 0 { "X"@ } else { "Y"@ }),
        ControllableParameter::SynthToggleActive => "Synth Active Toggle"@,
        ControllableParameter::SynthMasterVolume => "Synth Master Volume"@,
        ControllableParameter::ToggleSynthEditor => "Toggle Synth Editor"@,
        ControllableParameter::SamplerToggleActive => "Sampler Active Toggle"@,
        ControllableParameter::SamplerMasterVolume => "Sampler Master Volume"@,
        ControllableParameter::ToggleSamplerEditor => "Toggle Sampler Editor"@,
        ControllableParameter::InputToggleArm => "Input Arm Toggle"@,
        ControllableParameter::InputToggleMonitor => "Input Monitor Toggle"@,
        ControllableParameter::TransportTogglePlay => "Transport Play/Stop"@,
        ControllableParameter::TransportToggleMuteAll => "Transport Mute All"@,
        ControllableParameter::TransportClearAll => "Transport Clear All"@,
        ControllableParameter::TransportToggleRecord => "Transport Record Toggle"@,
        ControllableParameter::MasterVolume => "Master Volume"@,
        ControllableParameter::LimiterThreshold => "Limiter Threshold"@,
        ControllableParameter::FxFocusedWetDry => "Focused FX Rack Dry/Wet"@,
        ControllableParameter::FxFocusedPresetChange => "Focused FX Preset Change"@,
        ControllableParameter::AtmoMasterVolume => "Atmo Master Volume"@,
        ControllableParameter::ToggleAtmoEditor => "Toggle Atmosphere Editor"@,
        ControllableParameter::MetronomeVolume => "Metronome Volume"@,
        ControllableParameter::MetronomePitch => "Metronome Pitch"@,
        ControllableParameter::MetronomeToggleMute => "Metronome Mute Toggle"@,
    }
}

/// The numbers in a parameter's name can be shown: its indices are below the largest `usize`.
pub open spec fn parameter_label_fits(p: ControllableParameter) -> bool {
    match p {
        ControllableParameter::Looper(i)
        | ControllableParameter::MixerVolume(i)
        | ControllableParameter::MixerToggleMute(i)
        | ControllableParameter::MixerToggleSolo(i)
        | ControllableParameter::AtmoLayerVolume(i) => i < usize::MAX,
        ControllableParameter::Fx(id) => label_fits(id.point),
        ControllableParameter::ToggleFxEditor(point) => label_fits(point),
        _ => true,
    }
}

fn indexed_label(prefix: &str, i: usize, suffix: &str) -> (r: String)
    requires
        i < usize::MAX,
    ensures
        r@ == prefix@ + shown_number(i) + suffix@,
{
    let mut out = String::new();
    out.append(prefix);
    push_decimal(&mut out, (i + 1) as u64);
    out.append(suffix);
    assert(out@ =~= prefix@ + shown_number(i) + suffix@);
    out
}

fn point_label_fits(p: InsertionPoint) -> (r: bool)
    ensures
        r == label_fits(p),
{
    match p {
        InsertionPoint::Looper(i) | InsertionPoint::Synth(i) => i < usize::MAX,
        _ => true,
    }
}

impl ControllableParameter {
    /// Whether the numbers in the parameter's name can be shown (see `parameter_label_fits`).
    pub fn label_fits(&self) -> (r: bool)
        ensures
            r == parameter_label_fits(*self),
    {
        match self {
            ControllableParameter::Looper(i)
            | ControllableParameter::MixerVolume(i)
            | ControllableParameter::MixerToggleMute(i)
            | ControllableParameter::MixerToggleSolo(i)
            | ControllableParameter::AtmoLayerVolume(i) => *i < usize::MAX,
            ControllableParameter::Fx(id) => point_label_fits(id.point),
            ControllableParameter::ToggleFxEditor(point) => point_label_fits(*point),
            _ => true,
        }
    }
}

impl ControllableParameter {
    /// The name under which the parameter is shown in the MIDI mapping list.
    pub fn label(&self) -> (r: String)
        requires
            parameter_label_fits(*self),
        ensures
            r@ == parameter_label(*self),
    {
        match self {
            ControllableParameter::Looper(i) => indexed_label("Looper ", *i, " Trigger"),
            ControllableParameter::MixerVolume(i) => indexed_label("Mixer Ch ", *i, " Volume"),
            ControllableParameter::MixerToggleMute(i) => indexed_label("Mixer Ch ", *i, " Mute"),
            ControllableParameter::MixerToggleSolo(i) => indexed_label("Mixer Ch ", *i, " Solo"),
            ControllableParameter::AtmoLayerVolume(i) => indexed_label("Atmo Layer ", *i, " Volume"),
            ControllableParameter::Fx(id) => {
                let mut out = String::new();
                out.append("FX ");
                let point = id.point.label();
                out.append(point.as_str());
                if id.component_index == usize::MAX {
                    out.append(":");
                } else {
                    out.append(":C");
                    push_decimal(&mut out, (id.component_index + 1) as u64);
                    out.append(":");
                }
                out.append(id.param_name.as_str());
                assert(out@ =~= parameter_label(*self));
                out
            },
            ControllableParameter::ToggleFxEditor(point) => {
                let mut out = String::new();
                out.append("Toggle FX Editor (");
                let name = point.label();
                out.append(name.as_str());
                out.append(")");
                assert(out@ =~= parameter_label(*self));
                out
            },
            ControllableParameter::AtmoXY(axis) => {
                let mut out = String::new();
                out.append("Atmo Pad ");
                if *axis == 0 {
                    out.append("X");
                } else {
                    out.append("Y");
                }
                assert(out@ =~= parameter_label(*self));
                out
            },
            ControllableParameter::SynthToggleActive => String::from_str("Synth Active Toggle"),
            ControllableParameter::SynthMasterVolume => String::from_str("Synth Master Volume"),
            ControllableParameter::ToggleSynthEditor => String::from_str("Toggle Synth Editor"),
            ControllableParameter::SamplerToggleActive => String::from_str("Sampler Active Toggle"),
            ControllableParameter::SamplerMasterVolume => String::from_str("Sampler Master Volume"),
            ControllableParameter::ToggleSamplerEditor => String::from_str("Toggle Sampler Editor"),
            ControllableParameter::InputToggleArm => String::from_str("Input Arm Toggle"),
            ControllableParameter::InputToggleMonitor => String::from_str("Input Monitor Toggle"),
            ControllableParameter::TransportTogglePlay => String::from_str("Transport Play/Stop"),
            ControllableParameter::TransportToggleMuteAll => String::from_str("Transport Mute All"),
            ControllableParameter::TransportClearAll => String::from_str("Transport Clear All"),
            ControllableParameter::TransportToggleRecord => String::from_str("Transport Record Toggle"),
            ControllableParameter::MasterVolume => String::from_str("Master Volume"),
            ControllableParameter::LimiterThreshold => String::from_str("Limiter Threshold"),
            ControllableParameter::FxFocusedWetDry => String::from_str("Focused FX Rack Dry/Wet"),
            ControllableParameter::FxFocusedPresetChange => String::from_str("Focused FX Preset Change"),
            ControllableParameter::AtmoMasterVolume => String::from_str("Atmo Master Volume"),
            ControllableParameter::ToggleAtmoEditor => String::from_str("Toggle Atmosphere Editor"),
            ControllableParameter::MetronomeVolume => String::from_str("Metronome Volume"),
            ControllableParameter::MetronomePitch => String::from_str("Metronome Pitch"),
            ControllableParameter::MetronomeToggleMute => String::from_str("Metronome Mute Toggle"),
        }
    }
}

/// Why a stored identifier could not be read.
#[derive(Clone, Copy, Debug, PartialEq, Eq, Structural)]
pub enum IdentifierParseError {
    MissingPort,
    MissingChannel,
    MissingValue,
    InvalidChannel,
    InvalidValue,
    UnknownType,
}

/// The stored form of an identifier: `cc|port|channel|controller` or `note|port|channel|note`.
pub open spec fn identifier_text(v: MidiIdView) -> Seq<char> {
    bar_join(
        if v.is_cc { "cc"@ } else { "note"@ },
        bar_join(v.port, bar_join(decimal(v.channel as nat), decimal(v.number as nat))),
    )
}

/// Reading the stored form: the text splits at its first three `|` into a
/// type, a port, a channel and a value (the value keeps any further `|`); the
/// channel must be a number no larger than 255; the type must be `cc` or
/// `note`; the value must be a number no larger than 255.
pub open spec fn parse_identifier_text(s: Seq<char>) -> Result<MidiIdView, IdentifierParseError> {
    match split_bar(s) {
        None => Err(IdentifierParseError::MissingPort),
        Some((ty, r1)) => match split_bar(r1) {
            None => Err(IdentifierParseError::MissingChannel),
            Some((port, r2)) => match split_bar(r2) {
                None => Err(IdentifierParseError::MissingValue),
                Some((ch, val)) => match parse_unsigned_spec(ch, 255) {
                    None => Err(IdentifierParseError::InvalidChannel),
                    Some(c) => if ty == "cc"@ || ty == "note"@ {
                        match parse_unsigned_spec(val, 255) {
                            None => Err(IdentifierParseError::InvalidValue),
                            Some(v) => Ok(MidiIdView { is_cc: ty == "cc"@, port, channel: c as u8, number: v as u8 }),
                        }
                    } else {
                        Err(IdentifierParseError::UnknownType)
                    },
                },
            },
        },
    }
}

impl FullMidiIdentifier {
    /// The stored form of the identifier (see `identifier_text`).
    pub fn to_config_string(&self) -> (r: String)
        ensures
            r@ == identifier_text(self@),
    {
        proof {
            reveal_strlit("cc");
            reveal_strlit("note");
            reveal_strlit("|");
        }
        let mut out = String::new();
        match self {
            FullMidiIdentifier::ControlChange(id) => {
                out.append("cc");
                out.append("|");
                out.append(id.port_name.as_str());
                out.append("|");
                push_decimal(&mut out, id.channel as u64);
                out.append("|");
                push_decimal(&mut out, id.cc as u64);
            },
            FullMidiIdentifier::Note(id) => {
                out.append("note");
                out.append("|");
                out.append(id.port_name.as_str());
                out.append("|");
                push_decimal(&mut out, id.channel as u64);
                out.append("|");
                push_decimal(&mut out, id.note as u64);
            },
        }
        assert(out@ =~= identifier_text(self@));
        out
    }

    /// Reads an identifier from its stored form (see `parse_identifier_text`).
    pub fn parse_config_string(value: &str) -> (r: Result<FullMidiIdentifier, IdentifierParseError>)
        ensures
            r matches Ok(id) ==> parse_identifier_text(value@) == Ok::<MidiIdView, IdentifierParseError>(id@),
            r matches Err(e) ==> parse_identifier_text(value@) == Err::<MidiIdView, IdentifierParseError>(e),
    {
        proof {
            reveal_strlit("cc");
            reveal_strlit("note");
        }
        let (id_type, rest1) = match split_at_bar(value) {
            Some(parts) => parts,
            None => return Err(IdentifierParseError::MissingPort),
        };
        let (port_name, rest2) = match split_at_bar(rest1.as_str()) {
            Some(parts) => parts,
            None => return Err(IdentifierParseError::MissingChannel),
        };
        let (channel_str, value_str) = match split_at_bar(rest2.as_str()) {
            Some(parts) => parts,
            None => return Err(IdentifierParseError::MissingValue),
        };
        let channel = match parse_unsigned(channel_str.as_str(), 255) {
            Some(c) => c as u8,
            None => return Err(IdentifierParseError::InvalidChannel),
        };
        let is_cc = text_eq(id_type.as_str(), "cc");
        let is_note = text_eq(id_type.as_str(), "note");
        if is_cc || is_note {
            let number = match parse_unsigned(value_str.as_str(), 255) {
                Some(v) => v as u8,
                None => return Err(IdentifierParseError::InvalidValue),
            };
            if is_cc {
                Ok(FullMidiIdentifier::ControlChange(FullMidiControlId { port_name, channel, cc: number }))
            } else {
                Ok(FullMidiIdentifier::Note(FullMidiNoteId { port_name, channel, note: number }))
            }
        } else {
            Err(IdentifierParseError::UnknownType)
        }
    }
}

/// Reading back the stored form of an identifier whose port name holds no `|`
/// gives the identifier again.
pub proof fn lemma_identifier_text_roundtrip(v: MidiIdView)
    requires
        has_no_bar(v.port),
    ensures
        parse_identifier_text(identifier_text(v)) == Ok::<MidiIdView, IdentifierParseError>(v),
{
    reveal_strlit("cc");
    reveal_strlit("note");
    let ty = if v.is_cc { "cc"@ } else { "note"@ };
    let dc = decimal(v.channel as nat);
    let dn = decimal(v.number as nat);
    assert(has_no_bar(ty));
    lemma_split_bar_join(ty, bar_join(v.port, bar_join(dc, dn)));
    lemma_split_bar_join(v.port, bar_join(dc, dn));
    lemma_decimal_has_no_bar(v.channel as nat);
    lemma_split_bar_join(dc, dn);
    lemma_parse_decimal(v.channel as nat, 255);
    lemma_parse_decimal(v.number as nat, 255);
    assert("cc"@ != "note"@);
}

} // verus!
