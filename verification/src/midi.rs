//! Decisions taken on incoming MIDI: which messages reach the instruments,
//! which reach mapped controls, and what a mapped control does.

use vstd::prelude::*;
use vstd::std_specs::btree::group_btree_axioms;
use crate::fx::InsertionPoint;
use crate::midi_map::MidiMap;
use crate::fx_components::{lemma_params_read_back, params_updated, params_value, ComponentParams};
use crate::settings::{
    fx_param_key, is_continuous_parameter, ControllableParameter, FullMidiControlId,
    FullMidiIdentifier, FxParamIdentifier, FxParamName, MidiControlMode, MidiIdView,
};
use std::collections::BTreeSet;

verus! {

broadcast use group_btree_axioms, vstd::laws_cmp::group_laws_cmp;

/// A three-byte MIDI channel message.
#[derive(Clone, Copy, Debug, PartialEq, Eq, Structural)]
pub struct MidiMessage {
    pub status: u8,
    pub data1: u8,
    pub data2: u8,
}

/// What an incoming MIDI message is, for a device with the given channels.
#[derive(Clone, Copy, Debug, PartialEq, Eq, Structural)]
pub enum MidiInputEvent {
    /// Too short, or of a kind the application does not use.
    Ignored,
    /// A note on the instruments' channel: tracked as held and passed to the engine.
    EngineNote { message: MidiMessage, note: u8, is_note_on: bool },
    /// A note on the device's control channel.
    ControlNote { channel: u8, note: u8, is_note_on: bool },
    /// A control change, on any channel.
    ControlChange { channel: u8, cc: u8, value: u8 },
}

/// The classification of a raw message (see `classify_midi_input`).
pub open spec fn midi_input_event(m: Seq<u8>, audio_note_channel: u8, control_channel: Option<u8>) -> MidiInputEvent {
    if m.len() < 3 {
        MidiInputEvent::Ignored
    } else {
        let status = m[0] & 0xF0u8;
        let channel = m[0] & 0x0Fu8;
        if status == 0x90u8 || status == 0x80u8 {
            let is_note_on = status == 0x90u8 && m[2] > 0;
            if channel == audio_note_channel {
                MidiInputEvent::EngineNote {
                    message: MidiMessage { status: m[0], data1: m[1], data2: m[2] },
                    note: m[1],
                    is_note_on,
                }
            } else if control_channel == Some(channel) {
                MidiInputEvent::ControlNote { channel, note: m[1], is_note_on }
            } else {
                MidiInputEvent::Ignored
            }
        } else if status == 0xB0u8 {
            MidiInputEvent::ControlChange { channel, cc: m[1], value: m[2] }
        } else {
            MidiInputEvent::Ignored
        }
    }
}

/// Classifies a raw message from a device. Notes on `audio_note_channel` go to
/// the instruments; notes on the device's control channel (if it has one) go
/// to mapped controls; control changes go to mapped controls; a note-on with
/// velocity zero counts as a note-off.
pub fn classify_midi_input(message: &[u8], audio_note_channel: u8, control_channel: Option<u8>) -> (r: MidiInputEvent)
    ensures
        r == midi_input_event(message@, audio_note_channel, control_channel),
{
    if message.len() < 3 {
        return MidiInputEvent::Ignored;
    }
    let status = message[0] & 0xF0;
    let channel = message[0] & 0x0F;
    if status == 0x90 || status == 0x80 {
        let note = message[1];
        let velocity = message[2];
        let is_note_on = status == 0x90 && velocity > 0;
        if channel == audio_note_channel {
            MidiInputEvent::EngineNote {
                message: MidiMessage { status: message[0], data1: note, data2: velocity },
                note,
                is_note_on,
            }
        } else {
            match control_channel {
                Some(c) => if c == channel {
                    MidiInputEvent::ControlNote { channel, note, is_note_on }
                } else {
                    MidiInputEvent::Ignored
                },
                None => MidiInputEvent::Ignored,
            }
        }
    } else if status == 0xB0 {
        MidiInputEvent::ControlChange { channel, cc: message[1], value: message[2] }
    } else {
        MidiInputEvent::Ignored
    }
}

/// Keeps the set of held notes up to date.
pub fn update_live_notes(notes: &mut BTreeSet<u8>, note: u8, is_note_on: bool)
    ensures
        is_note_on ==> final(notes)@ == old(notes)@.insert(note),
        !is_note_on ==> final(notes)@ == old(notes)@.remove(note),
{
    if is_note_on {
        notes.insert(note);
    } else {
        notes.remove(&note);
    }
}

/// Where a note that reached the engine goes.
#[derive(Clone, Copy, Debug, PartialEq, Eq, Structural)]
pub enum NoteRoute {
    Ignore,
    TriggerPad { pad_index: usize, velocity: u8 },
    SynthNoteOn { note: u8, velocity: u8 },
    SynthNoteOff { note: u8 },
}

/// Lowest note that triggers a sampler pad.
pub const FIRST_PAD_NOTE: u8 = 48;
/// Highest note that triggers a sampler pad.
pub const LAST_PAD_NOTE: u8 = 63;

/// The route of a note (see `route_engine_note`).
pub open spec fn engine_note_route(
    msg: MidiMessage,
    selected_channel: u8,
    sampler_active: bool,
    synth_active: bool,
    pad_has_audio: Seq<bool>,
) -> NoteRoute {
    if msg.status & 0x0Fu8 != selected_channel {
        NoteRoute::Ignore
    } else if msg.status & 0xF0u8 == 0x90u8 && msg.data2 > 0 {
        let pad = msg.data1 - FIRST_PAD_NOTE;
        if sampler_active && FIRST_PAD_NOTE <= msg.data1 <= LAST_PAD_NOTE && pad < pad_has_audio.len()
            && pad_has_audio[pad] {
            NoteRoute::TriggerPad { pad_index: pad as usize, velocity: msg.data2 }
        } else if synth_active {
            NoteRoute::SynthNoteOn { note: msg.data1, velocity: msg.data2 }
        } else {
            NoteRoute::Ignore
        }
    } else {
        NoteRoute::SynthNoteOff { note: msg.data1 }
    }
}

/// Routes a note on the selected channel: a note-on triggers a loaded sampler
/// pad (notes 48 to 63) while the sampler is active, and otherwise plays the
/// synth while it is active; any other message on the channel releases the
/// note on the synth, whichever instrument is active.
pub fn route_engine_note(
    msg: &MidiMessage,
    selected_channel: u8,
    sampler_active: bool,
    synth_active: bool,
    pad_has_audio: &Vec<bool>,
) -> (r: NoteRoute)
    ensures
        r == engine_note_route(*msg, selected_channel, sampler_active, synth_active, pad_has_audio@),
{
    let channel = msg.status & 0x0F;
    if channel != selected_channel {
        return NoteRoute::Ignore;
    }
    let note = msg.data1;
    let velocity = msg.data2;
    if msg.status & 0xF0 == 0x90 && velocity > 0 {
        if sampler_active && FIRST_PAD_NOTE <= note && note <= LAST_PAD_NOTE {
            let pad_index = (note - FIRST_PAD_NOTE) as usize;
            if pad_index < pad_has_audio.len() && pad_has_audio[pad_index] {
                return NoteRoute::TriggerPad { pad_index, velocity };
            }
        }
        if synth_active {
            NoteRoute::SynthNoteOn { note, velocity }
        } else {
            NoteRoute::Ignore
        }
    } else {
        NoteRoute::SynthNoteOff { note }
    }
}

/// What a press of a mapped button does.
#[derive(Clone, Copy, Debug, PartialEq, Eq, Structural)]
pub enum ButtonAction {
    LooperPress(usize),
    ToggleMixerMute(usize),
    ToggleMixerSolo(usize),
    ToggleSynth,
    ToggleSampler,
    ToggleAudioInputArm,
    ToggleAudioInputMonitoring,
    ToggleTransport,
    ToggleMuteAll,
    ToggleRecord,
    ToggleMetronomeMute,
    ClearAll,
    ToggleFxEditor(InsertionPoint),
    ToggleAtmoEditor,
    ToggleSynthEditor,
    ToggleSamplerEditor,
    NextFxPreset,
}

/// The action of a press on a button mapped to the parameter; continuous
/// parameters other than preset stepping have none.
pub open spec fn button_action_of(param: ControllableParameter) -> Option<ButtonAction> {
    match param {
        ControllableParameter::Looper(i) => Some(ButtonAction::LooperPress(i)),
        ControllableParameter::MixerToggleMute(i) => Some(ButtonAction::ToggleMixerMute(i)),
        ControllableParameter::MixerToggleSolo(i) => Some(ButtonAction::ToggleMixerSolo(i)),
        ControllableParameter::SynthToggleActive => Some(ButtonAction::ToggleSynth),
        ControllableParameter::SamplerToggleActive => Some(ButtonAction::ToggleSampler),
        ControllableParameter::InputToggleArm => Some(ButtonAction::ToggleAudioInputArm),
        ControllableParameter::InputToggleMonitor => Some(ButtonAction::ToggleAudioInputMonitoring),
        ControllableParameter::TransportTogglePlay => Some(ButtonAction::ToggleTransport),
        ControllableParameter::TransportToggleMuteAll => Some(ButtonAction::ToggleMuteAll),
        ControllableParameter::TransportToggleRecord => Some(ButtonAction::ToggleRecord),
        ControllableParameter::MetronomeToggleMute => Some(ButtonAction::ToggleMetronomeMute),
        ControllableParameter::TransportClearAll => Some(ButtonAction::ClearAll),
        ControllableParameter::ToggleFxEditor(p) => Some(ButtonAction::ToggleFxEditor(p)),
        ControllableParameter::ToggleAtmoEditor => Some(ButtonAction::ToggleAtmoEditor),
        ControllableParameter::ToggleSynthEditor => Some(ButtonAction::ToggleSynthEditor),
        ControllableParameter::ToggleSamplerEditor => Some(ButtonAction::ToggleSamplerEditor),
        ControllableParameter::FxFocusedPresetChange => Some(ButtonAction::NextFxPreset),
        _ => None,
    }
}

/// The action of a press on a button mapped to the parameter.
pub fn button_action(param: ControllableParameter) -> (r: Option<ButtonAction>)
    ensures
        r == button_action_of(param),
{
    match param {
        ControllableParameter::Looper(i) => Some(ButtonAction::LooperPress(i)),
        ControllableParameter::MixerToggleMute(i) => Some(ButtonAction::ToggleMixerMute(i)),
        ControllableParameter::MixerToggleSolo(i) => Some(ButtonAction::ToggleMixerSolo(i)),
        ControllableParameter::SynthToggleActive => Some(ButtonAction::ToggleSynth),
        ControllableParameter::SamplerToggleActive => Some(ButtonAction::ToggleSampler),
        ControllableParameter::InputToggleArm => Some(ButtonAction::ToggleAudioInputArm),
        ControllableParameter::InputToggleMonitor => Some(ButtonAction::ToggleAudioInputMonitoring),
        ControllableParameter::TransportTogglePlay => Some(ButtonAction::ToggleTransport),
        ControllableParameter::TransportToggleMuteAll => Some(ButtonAction::ToggleMuteAll),
        ControllableParameter::TransportToggleRecord => Some(ButtonAction::ToggleRecord),
        ControllableParameter::MetronomeToggleMute => Some(ButtonAction::ToggleMetronomeMute),
        ControllableParameter::TransportClearAll => Some(ButtonAction::ClearAll),
        ControllableParameter::ToggleFxEditor(p) => Some(ButtonAction::ToggleFxEditor(p)),
        ControllableParameter::ToggleAtmoEditor => Some(ButtonAction::ToggleAtmoEditor),
        ControllableParameter::ToggleSynthEditor => Some(ButtonAction::ToggleSynthEditor),
        ControllableParameter::ToggleSamplerEditor => Some(ButtonAction::ToggleSamplerEditor),
        ControllableParameter::FxFocusedPresetChange => Some(ButtonAction::NextFxPreset),
        _ => None,
    }
}

/// A mapped control: its parameter, how its value is read, whether it is inverted.
#[derive(Clone, Copy, Debug, PartialEq, Eq, Structural)]
pub struct ResolvedControl {
    pub param: ControllableParameter,
    pub mode: MidiControlMode,
    pub inverted: bool,
}

pub open spec fn map_get<V>(m: Map<MidiIdView, V>, k: MidiIdView) -> Option<V> {
    if m.contains_key(k) { Some(m[k]) } else { None }
}

/// A control change from a port, and the same control from any port (empty port name).
pub open spec fn cc_view(port: Seq<char>, channel: u8, cc: u8) -> MidiIdView {
    MidiIdView { is_cc: true, port, channel, number: cc }
}

/// The mapping of a control change: the mapping of the control on its port,
/// else the mapping of the control on any port; the mode likewise, absolute
/// when none is set; inverted when either is marked inverted.
pub open spec fn resolved_cc(
    mappings: Map<MidiIdView, ControllableParameter>,
    modes: Map<MidiIdView, MidiControlMode>,
    inversions: Map<MidiIdView, bool>,
    port: Seq<char>,
    channel: u8,
    cc: u8,
) -> Option<ResolvedControl> {
    let id = cc_view(port, channel, cc);
    let wild = cc_view(Seq::empty(), channel, cc);
    let param = if mappings.contains_key(id) { map_get(mappings, id) } else { map_get(mappings, wild) };
    let mode = if modes.contains_key(id) {
        modes[id]
    } else if modes.contains_key(wild) {
        modes[wild]
    } else {
        MidiControlMode::Absolute
    };
    let inverted = (inversions.contains_key(id) && inversions[id]) || (inversions.contains_key(wild) && inversions[wild]);
    match param {
        Some(p) => Some(ResolvedControl { param: p, mode, inverted }),
        None => None,
    }
}

/// Looks up what a control change is mapped to (see `resolved_cc`).
pub fn resolve_cc_control(
    mappings: &MidiMap<ControllableParameter>,
    modes: &MidiMap<MidiControlMode>,
    inversions: &MidiMap<bool>,
    port_name: &String,
    channel: u8,
    cc: u8,
) -> (r: Option<ResolvedControl>)
    ensures
        r == resolved_cc(mappings@, modes@, inversions@, port_name@, channel, cc),
{
    let identifier = FullMidiIdentifier::ControlChange(FullMidiControlId {
        port_name: port_name.clone(),
        channel,
        cc,
    });
    let wildcard = FullMidiIdentifier::ControlChange(FullMidiControlId {
        port_name: String::new(),
        channel,
        cc,
    });
    let param = match mappings.get(&identifier) {
        Some(p) => Some(p),
        None => mappings.get(&wildcard),
    };
    let mode = match modes.get(&identifier) {
        Some(m) => m,
        None => match modes.get(&wildcard) {
            Some(m) => m,
            None => MidiControlMode::Absolute,
        },
    };
    let inverted_here = match inversions.get(&identifier) {
        Some(b) => b,
        None => false,
    };
    let inverted_any = match inversions.get(&wildcard) {
        Some(b) => b,
        None => false,
    };
    match param {
        Some(p) => Some(ResolvedControl { param: p, mode, inverted: inverted_here || inverted_any }),
        None => None,
    }
}

/// What a mapped control does with an incoming value.
#[derive(Clone, Copy, Debug, PartialEq, Eq, Structural)]
pub enum ControlAction {
    /// A button press (debounced by the caller); `holds` marks a looper button
    /// whose long press clears the track.
    Press { param: ControllableParameter, holds: bool },
    /// A button release.
    Release { param: ControllableParameter, holds: bool },
    /// An absolute value for a parameter of an effect component.
    FxValue { id: FxParamIdentifier, value: u8 },
    /// An absolute value for the dry/wet mix of the focused effect rack.
    FocusedWetDry { value: u8 },
    /// An absolute value for any other continuous parameter.
    AbsoluteValue { param: ControllableParameter, value: u8 },
    /// A relative step of an encoder, centred on 64; the caller scales it and
    /// negates it when `inverted`.
    Relative { param: ControllableParameter, steps: i8, inverted: bool },
}

/// Whether the parameter behaves as a button.
pub open spec fn is_button_like(param: ControllableParameter) -> bool {
    !is_continuous_parameter(param) || param == ControllableParameter::FxFocusedPresetChange
}

pub open spec fn holds_on_press(param: ControllableParameter) -> bool {
    param is Looper
}

/// The step an encoder value stands for: the value read as a signed byte, minus 64.
pub open spec fn relative_steps(value: u8) -> int {
    if value <= 127 { value - 64 } else { value - 256 - 64 }
}

/// A value the control can receive without an arithmetic overflow.
pub open spec fn control_value_fits(control: ResolvedControl, value: u8) -> bool {
    &&& (control.mode == MidiControlMode::Absolute && !is_button_like(control.param) && control.inverted) ==> value <= 127
    &&& control.mode == MidiControlMode::Relative ==> (value <= 127 || value >= 192)
}

/// The action of a value on a mapped control (see `control_action`).
pub open spec fn control_action_of(control: ResolvedControl, value: u8) -> ControlAction {
    let param = control.param;
    match control.mode {
        MidiControlMode::Absolute => if is_button_like(param) {
            if value > 64 {
                ControlAction::Press { param, holds: holds_on_press(param) }
            } else {
                ControlAction::Release { param, holds: holds_on_press(param) }
            }
        } else {
            let v = if control.inverted { (127 - value) as u8 } else { value };
            match param {
                ControllableParameter::Fx(id) => ControlAction::FxValue { id, value: v },
                ControllableParameter::FxFocusedWetDry => ControlAction::FocusedWetDry { value: v },
                _ => ControlAction::AbsoluteValue { param, value: v },
            }
        },
        MidiControlMode::Relative => ControlAction::Relative {
            param,
            steps: relative_steps(value) as i8,
            inverted: control.inverted,
        },
    }
}

impl ResolvedControl {
    /// Whether the control can take the value (see `control_value_fits`).
    pub fn accepts(&self, value: u8) -> (r: bool)
        ensures
            r == control_value_fits(*self, value),
    {
        let button_like = !self.param.is_continuous() || self.param == ControllableParameter::FxFocusedPresetChange;
        match self.mode {
            MidiControlMode::Absolute => button_like || !self.inverted || value <= 127,
            MidiControlMode::Relative => value <= 127 || value >= 192,
        }
    }
}

/// What a control-change value does on a mapped control: in absolute mode a
/// button-like parameter is pressed above 64 and released otherwise, and a
/// continuous parameter takes the value (mirrored when inverted); in relative
/// mode the value is an encoder step around 64.
pub fn control_action(control: &ResolvedControl, value: u8) -> (r: ControlAction)
    requires
        control_value_fits(*control, value),
    ensures
        r == control_action_of(*control, value),
{
    let param = control.param;
    match control.mode {
        MidiControlMode::Absolute => {
            let button_like = !param.is_continuous() || param == ControllableParameter::FxFocusedPresetChange;
            if button_like {
                let holds = match param {
                    ControllableParameter::Looper(_) => true,
                    _ => false,
                };
                if value > 64 {
                    ControlAction::Press { param, holds }
                } else {
                    ControlAction::Release { param, holds }
                }
            } else {
                let v = if control.inverted { 127 - value } else { value };
                match param {
                    ControllableParameter::Fx(id) => ControlAction::FxValue { id, value: v },
                    ControllableParameter::FxFocusedWetDry => ControlAction::FocusedWetDry { value: v },
                    _ => ControlAction::AbsoluteValue { param, value: v },
                }
            }
        },
        MidiControlMode::Relative => {
            let signed: i16 = if value <= 127 { value as i16 } else { value as i16 - 256 };
            let steps: i8 = (signed - 64) as i8;
            ControlAction::Relative { param, steps, inverted: control.inverted }
        },
    }
}

/// What a note on the control channel does on a mapped control: a note-on
/// presses it, a note-off releases it.
pub fn note_control_action(param: ControllableParameter, is_note_on: bool) -> (r: ControlAction)
    ensures
        r == (if is_note_on {
            ControlAction::Press { param, holds: holds_on_press(param) }
        } else {
            ControlAction::Release { param, holds: holds_on_press(param) }
        }),
{
    let holds = match param {
        ControllableParameter::Looper(_) => true,
        _ => false,
    };
    if is_note_on {
        ControlAction::Press { param, holds }
    } else {
        ControlAction::Release { param, holds }
    }
}

/// The direction in which a relative control steps through effect presets.
pub fn preset_step_direction(value: u8) -> (r: i8)
    ensures
        r == (if value > 64 { 1i8 } else { -1i8 }),
{
    if value > 64 { 1 } else { -1 }
}

/// The chain of an effect rack after a MIDI CC on one of its component parameters:
/// the addressed component gets the value where it has a parameter of that name.
pub open spec fn chain_after_fx_cc(chain: Seq<ComponentParams>, id: FxParamIdentifier, scaled_value: u32) -> Seq<ComponentParams> {
    if id.component_index < chain.len() {
        let i = id.component_index as int;
        chain.update(i, params_updated(chain[i], fx_param_key(id.param_name), scaled_value))
    } else {
        chain
    }
}

/// A MIDI CC on a parameter that the addressed component has is read back
/// from that component; the other components are untouched.
pub proof fn lemma_fx_cc_read_back(chain: Seq<ComponentParams>, id: FxParamIdentifier, scaled_value: u32)
    requires
        id.component_index < chain.len(),
        params_value(chain[id.component_index as int], fx_param_key(id.param_name)) is Some,
    ensures
        chain_after_fx_cc(chain, id, scaled_value).len() == chain.len(),
        params_value(chain_after_fx_cc(chain, id, scaled_value)[id.component_index as int], fx_param_key(id.param_name))
            == Some(scaled_value),
        forall|j: int| 0 <= j < chain.len() && j != id.component_index ==> #[trigger] chain_after_fx_cc(chain, id, scaled_value)[j]
            == chain[j],
{
    let key = fx_param_key(id.param_name);
    lemma_params_read_back(chain[id.component_index as int], key, scaled_value, key);
}

/// Applies a MIDI CC to an effect parameter of the rack at `id.point`:
/// `wet_dry_mix` is the rack's wet/dry control (`None` where it has none),
/// `chain` the parameters of its components (empty where it has no preset), and
/// `scaled_value` the CC value already scaled to the parameter's stored range.
/// The wet/dry name addresses the rack's mix; any other name addresses the
/// parameter of that name of the component at `id.component_index`, and a
/// missing rack control, component or parameter leaves everything unchanged.
pub fn handle_fx_cc(
    wet_dry_mix: &mut Option<u32>,
    chain: &mut Vec<ComponentParams>,
    id: FxParamIdentifier,
    scaled_value: u32,
)
    ensures
        id.param_name == FxParamName::WetDry ==> {
            &&& *final(wet_dry_mix) == (if old(wet_dry_mix).is_some() { Some(scaled_value) } else { None::<u32> })
            &&& final(chain)@ == old(chain)@
        },
        id.param_name != FxParamName::WetDry ==> {
            &&& *final(wet_dry_mix) == *old(wet_dry_mix)
            &&& final(chain)@ == chain_after_fx_cc(old(chain)@, id, scaled_value)
        },
{
    if id.param_name == FxParamName::WetDry {
        if wet_dry_mix.is_some() {
            *wet_dry_mix = Some(scaled_value);
        }
    } else if id.component_index < chain.len() {
        let mut link = chain[id.component_index];
        let _found = link.set_param(id.param_name.as_str(), scaled_value);
        chain.set(id.component_index, link);
    }
}

/// Shortest time between two presses of one control that both take effect, in milliseconds.
pub const DEBOUNCE_MS: u64 = 50;

/// How long a looper button must be held to clear its track, in milliseconds.
pub const LONG_PRESS_MS: u64 = 500;

/// Whether a press at `now_ms` takes effect, given when the control's last
/// effective press was (`None` when it has none): only when more than the
/// debounce time has passed since then.
pub fn press_takes_effect(last_press_ms: Option<u64>, now_ms: u64) -> (r: bool)
    requires
        last_press_ms matches Some(t) ==> t <= now_ms,
    ensures
        r == match last_press_ms {
            Some(t) => now_ms - t > DEBOUNCE_MS,
            None => true,
        },
{
    match last_press_ms {
        Some(t) => now_ms - t > DEBOUNCE_MS,
        None => true,
    }
}

/// Whether a looper button pressed at `pressed_ms` and still held at `now_ms`
/// has been held long enough to clear its track.
pub fn hold_clears_looper(pressed_ms: u64, now_ms: u64) -> (r: bool)
    requires
        pressed_ms <= now_ms,
    ensures
        r == (now_ms - pressed_ms >= LONG_PRESS_MS),
{
    now_ms - pressed_ms >= LONG_PRESS_MS
}

/// Where a note on the selected channel goes, stated by instrument: a
/// sampler pad is triggered only by a note-on (velocity above zero) from 48 to
/// 63 while the sampler is active and that pad holds audio, and it is the pad
/// of the note counted from 48, with the note's velocity; a note-on that
/// triggers no pad plays the synth while the synth is active, with its note
/// and velocity, and is dropped otherwise; every other message releases its
/// note on the synth; messages on other channels are dropped.
pub proof fn lemma_note_routing(
    msg: MidiMessage,
    selected_channel: u8,
    sampler_active: bool,
    synth_active: bool,
    pad_has_audio: Seq<bool>,
)
    ensures
        ({
            let r = engine_note_route(msg, selected_channel, sampler_active, synth_active, pad_has_audio);
            let on_channel = msg.status & 0x0Fu8 == selected_channel;
            let note_on = msg.status & 0xF0u8 == 0x90u8 && msg.data2 > 0;
            let pad_note = 48 <= msg.data1 <= 63 && msg.data1 - 48 < pad_has_audio.len()
                && pad_has_audio[msg.data1 - 48];
            &&& !on_channel ==> r == NoteRoute::Ignore
            &&& (r is TriggerPad) <==> (on_channel && note_on && sampler_active && pad_note)
            &&& r matches NoteRoute::TriggerPad { pad_index, velocity } ==> pad_index == msg.data1 - 48
                && velocity == msg.data2
            &&& on_channel && note_on && !(sampler_active && pad_note) ==> r == (if synth_active {
                NoteRoute::SynthNoteOn { note: msg.data1, velocity: msg.data2 }
            } else {
                NoteRoute::Ignore
            })
            &&& on_channel && !note_on ==> r == NoteRoute::SynthNoteOff { note: msg.data1 }
            &&& !sampler_active ==> !(r is TriggerPad)
        }),
{
}

} // verus!
