//! The input state of one MIDI device and what each message and each tick of
//! the hold timer does to it: held notes, MIDI learn, debounced button presses
//! and the looper buttons held down to clear their tracks.

use vstd::prelude::*;
use vstd::std_specs::btree::group_btree_axioms;
use crate::midi::{
    cc_view, classify_midi_input, control_action, control_action_of, holds_on_press, hold_clears_looper,
    map_get, midi_input_event, note_control_action, press_takes_effect, resolve_cc_control, resolved_cc, update_live_notes,
    ControlAction, MidiInputEvent, MidiMessage, DEBOUNCE_MS, LONG_PRESS_MS,
};
use crate::midi_map::{id_lt, learned_map, MidiMap};
use crate::settings::{
    ControllableParameter, FullMidiControlId, FullMidiIdentifier, FullMidiNoteId, MidiControlId,
    MidiControlMode, MidiIdView,
};
use std::collections::BTreeSet;

verus! {

broadcast use group_btree_axioms, vstd::laws_cmp::group_laws_cmp;

/// The input state of one MIDI device.
pub struct MidiInputState {
    /// The device's port name, which its controls are identified by.
    pub port_name: String,
    /// The channel whose notes go to the instruments.
    pub audio_note_channel: u8,
    /// The channel whose notes act as mapped controls, if the device has one.
    pub control_channel: Option<u8>,
    pub mappings: MidiMap<ControllableParameter>,
    pub modes: MidiMap<MidiControlMode>,
    pub inversions: MidiMap<bool>,
    /// The parameter that the next control moved is learned for.
    pub learn_target: Option<ControllableParameter>,
    /// Whether a modulation source is being learned: the next control change names it.
    pub mod_learn_active: bool,
    /// The notes held on the instruments' channel.
    pub live_notes: BTreeSet<u8>,
    /// When each control's last effective press was.
    pub last_press_ms: MidiMap<u64>,
    /// Since when each looper button has been held.
    pub held_since_ms: MidiMap<u64>,
    /// The control that moved last, and when.
    pub last_control: Option<(FullMidiIdentifier, u64)>,
}

/// The mathematical content of the input state.
pub struct MidiInputView {
    pub port: Seq<char>,
    pub audio_note_channel: u8,
    pub control_channel: Option<u8>,
    pub mappings: Map<MidiIdView, ControllableParameter>,
    pub modes: Map<MidiIdView, MidiControlMode>,
    pub inversions: Map<MidiIdView, bool>,
    pub learn_target: Option<ControllableParameter>,
    pub mod_learn_active: bool,
    pub live_notes: Set<u8>,
    pub last_press: Map<MidiIdView, u64>,
    pub held_since: Map<MidiIdView, u64>,
    pub last_control: Option<(MidiIdView, u64)>,
}

impl View for MidiInputState {
    type V = MidiInputView;

    open spec fn view(&self) -> MidiInputView {
        MidiInputView {
            port: self.port_name@,
            audio_note_channel: self.audio_note_channel,
            control_channel: self.control_channel,
            mappings: self.mappings@,
            modes: self.modes@,
            inversions: self.inversions@,
            learn_target: self.learn_target,
            mod_learn_active: self.mod_learn_active,
            live_notes: self.live_notes@,
            last_press: self.last_press_ms@,
            held_since: self.held_since_ms@,
            last_control: match self.last_control {
                Some((id, t)) => Some((id@, t)),
                None => None,
            },
        }
    }
}

/// What a message asks of the rest of the application.
#[derive(Clone, Copy, Debug, PartialEq, Eq, Structural)]
pub enum MidiStepOutput {
    /// Nothing.
    Nothing,
    /// A note for the instruments.
    EngineNote(MidiMessage),
    /// The control was learned for the parameter.
    Learned(ControllableParameter),
    /// The control change was learned as a modulation source.
    ModSourceLearned(MidiControlId),
    /// A mapped button was pressed, and the press takes effect.
    Pressed(ControllableParameter),
    /// A mapped control asks for a value or a step.
    Control(ControlAction),
}

/// Whether a press at `now` takes effect, given the control's last effective
/// press: only when more than the debounce time has passed since.
pub open spec fn press_effective(last: Option<u64>, now: u64) -> bool {
    match last {
        Some(t) => t <= now && now - t > DEBOUNCE_MS,
        None => true,
    }
}

/// The state with the control that moved last.
pub open spec fn with_last_control(v: MidiInputView, k: MidiIdView, now: u64) -> MidiInputView {
    MidiInputView { last_control: Some((k, now)), ..v }
}

/// MIDI learn: the control is mapped to the target alone, and learning ends.
pub open spec fn learn_step(v: MidiInputView, k: MidiIdView, param: ControllableParameter) -> (MidiInputView, MidiStepOutput) {
    (MidiInputView { mappings: learned_map(v.mappings, k, param), learn_target: None, ..v }, MidiStepOutput::Learned(param))
}

/// What a mapped control's action does: an effective press is passed on and
/// remembered; a looper button is held from its first press until its release;
/// values and steps are passed on.
pub open spec fn action_step(v: MidiInputView, k: MidiIdView, action: ControlAction, now: u64) -> (MidiInputView, MidiStepOutput) {
    match action {
        ControlAction::Press { param, holds } => {
            let effective = press_effective(map_get(v.last_press, k), now);
            let last_press = if effective { v.last_press.insert(k, now) } else { v.last_press };
            let held_since = if holds && !v.held_since.contains_key(k) { v.held_since.insert(k, now) } else { v.held_since };
            (
                MidiInputView { last_press, held_since, ..v },
                if effective { MidiStepOutput::Pressed(param) } else { MidiStepOutput::Nothing },
            )
        },
        ControlAction::Release { holds, .. } => (
            MidiInputView { held_since: if holds { v.held_since.remove(k) } else { v.held_since }, ..v },
            MidiStepOutput::Nothing,
        ),
        _ => (v, MidiStepOutput::Control(action)),
    }
}

/// What a raw message received at `now` does to the input state, and what it asks for.
/// A note on the instruments' channel updates the held notes and goes to the
/// instruments. A note on the control channel or a control change is recorded
/// as the last control; while a modulation source is learned a control change
/// names it; while a parameter is learned the control is mapped to it;
/// otherwise a mapped control acts.
pub open spec fn midi_step(v: MidiInputView, msg: Seq<u8>, now: u64) -> (MidiInputView, MidiStepOutput) {
    match midi_input_event(msg, v.audio_note_channel, v.control_channel) {
        MidiInputEvent::Ignored => (v, MidiStepOutput::Nothing),
        MidiInputEvent::EngineNote { message, note, is_note_on } => (
            MidiInputView {
                live_notes: if is_note_on { v.live_notes.insert(note) } else { v.live_notes.remove(note) },
                ..v
            },
            MidiStepOutput::EngineNote(message),
        ),
        MidiInputEvent::ControlNote { channel, note, is_note_on } => {
            let k = MidiIdView { is_cc: false, port: v.port, channel, number: note };
            let v1 = with_last_control(v, k, now);
            match v.learn_target {
                Some(param) => learn_step(v1, k, param),
                None => match map_get(v.mappings, k) {
                    Some(param) => action_step(v1, k, if is_note_on {
                        ControlAction::Press { param, holds: holds_on_press(param) }
                    } else {
                        ControlAction::Release { param, holds: holds_on_press(param) }
                    }, now),
                    None => (v1, MidiStepOutput::Nothing),
                },
            }
        },
        MidiInputEvent::ControlChange { channel, cc, value } => {
            let k = cc_view(v.port, channel, cc);
            let v1 = with_last_control(v, k, now);
            if v.mod_learn_active {
                (v1, MidiStepOutput::ModSourceLearned(MidiControlId { channel, cc }))
            } else {
                match v.learn_target {
                    Some(param) => learn_step(v1, k, param),
                    None => match resolved_cc(v.mappings, v.modes, v.inversions, v.port, channel, cc) {
                        Some(control) => action_step(v1, k, control_action_of(control, value), now),
                        None => (v1, MidiStepOutput::Nothing),
                    },
                }
            }
        },
    }
}

/// MIDI data bytes are below 128.
pub open spec fn data_bytes_valid(msg: Seq<u8>) -> bool {
    forall|i: int| 1 <= i < msg.len() ==> #[trigger] msg[i] <= 127
}

/// Whether the hold timer at `now` clears the looper of a held control: the
/// button has been held long enough and is mapped to a looper.
pub open spec fn clears_on_hold(v: MidiInputView, k: MidiIdView, now: u64) -> bool {
    &&& v.held_since.contains_key(k)
    &&& v.held_since[k] <= now
    &&& now - v.held_since[k] >= LONG_PRESS_MS
    &&& v.mappings.contains_key(k)
    &&& v.mappings[k] is Looper
}

/// The state after the hold timer at `now`: the buttons that cleared their loopers are no longer held.
pub open spec fn after_hold_check(v: MidiInputView, now: u64) -> MidiInputView {
    MidiInputView {
        held_since: Map::new(|k: MidiIdView| v.held_since.contains_key(k) && !clears_on_hold(v, k, now), |k: MidiIdView| v.held_since[k]),
        ..v
    }
}

/// The controls come in increasing order.
pub open spec fn views_sorted(ks: Seq<MidiIdView>) -> bool {
    forall|i: int, j: int| 0 <= i < j < ks.len() ==> id_lt(#[trigger] ks[i], #[trigger] ks[j])
}

/// The loopers cleared by the hold timer, in the order of their controls.
pub open spec fn cleared_loopers(v: MidiInputView, now: u64, ks: Seq<MidiIdView>, r: Seq<usize>) -> bool {
    &&& views_sorted(ks)
    &&& forall|k: MidiIdView| ks.contains(k) <==> clears_on_hold(v, k, now)
    &&& r.len() == ks.len()
    &&& forall|i: int| 0 <= i < ks.len() ==> v.mappings[#[trigger] ks[i]] == ControllableParameter::Looper(r[i])
}

impl MidiInputState {
    /// A device with no mappings, nothing held and nothing being learned.
    pub fn new(port_name: String, audio_note_channel: u8, control_channel: Option<u8>) -> (r: MidiInputState)
        ensures
            r@.port == port_name@,
            r@.audio_note_channel == audio_note_channel,
            r@.control_channel == control_channel,
            r@.mappings == Map::<MidiIdView, ControllableParameter>::empty(),
            r@.modes == Map::<MidiIdView, MidiControlMode>::empty(),
            r@.inversions == Map::<MidiIdView, bool>::empty(),
            r@.learn_target is None,
            !r@.mod_learn_active,
            r@.live_notes == Set::<u8>::empty(),
            r@.last_press == Map::<MidiIdView, u64>::empty(),
            r@.held_since == Map::<MidiIdView, u64>::empty(),
            r@.last_control is None,
    {
        MidiInputState {
            port_name,
            audio_note_channel,
            control_channel,
            mappings: MidiMap::new(),
            modes: MidiMap::new(),
            inversions: MidiMap::new(),
            learn_target: None,
            mod_learn_active: false,
            live_notes: BTreeSet::new(),
            last_press_ms: MidiMap::new(),
            held_since_ms: MidiMap::new(),
            last_control: None,
        }
    }

    fn apply_action(&mut self, id: FullMidiIdentifier, action: ControlAction, now_ms: u64) -> (r: MidiStepOutput)
        ensures
            (final(self)@, r) == action_step(old(self)@, id@, action, now_ms),
    {
        match action {
            ControlAction::Press { param, holds } => {
                let effective = match self.last_press_ms.get(&id) {
                    Some(t) => t <= now_ms && press_takes_effect(Some(t), now_ms),
                    None => press_takes_effect(None, now_ms),
                };
                if effective {
                    self.last_press_ms.insert(id.duplicate(), now_ms);
                }
                if holds {
                    if self.held_since_ms.get(&id).is_none() {
                        self.held_since_ms.insert(id, now_ms);
                    }
                }
                if effective {
                    MidiStepOutput::Pressed(param)
                } else {
                    MidiStepOutput::Nothing
                }
            },
            ControlAction::Release { holds, .. } => {
                if holds {
                    let _ = self.held_since_ms.remove(&id);
                }
                MidiStepOutput::Nothing
            },
            _ => MidiStepOutput::Control(action),
        }
    }

    /// Handles one raw message received at `now_ms` (see `midi_step`).
    pub fn on_message(&mut self, message: &[u8], now_ms: u64) -> (r: MidiStepOutput)
        requires
            data_bytes_valid(message@),
        ensures
            (final(self)@, r) == midi_step(old(self)@, message@, now_ms),
    {
        match classify_midi_input(message, self.audio_note_channel, self.control_channel) {
            MidiInputEvent::Ignored => MidiStepOutput::Nothing,
            MidiInputEvent::EngineNote { message, note, is_note_on } => {
                update_live_notes(&mut self.live_notes, note, is_note_on);
                MidiStepOutput::EngineNote(message)
            },
            MidiInputEvent::ControlNote { channel, note, is_note_on } => {
                let id = FullMidiIdentifier::Note(FullMidiNoteId { port_name: self.port_name.clone(), channel, note });
                self.last_control = Some((id.duplicate(), now_ms));
                match self.learn_target {
                    Some(param) => {
                        self.learn_target = None;
                        self.mappings.learn(id, param);
                        MidiStepOutput::Learned(param)
                    },
                    None => match self.mappings.get(&id) {
                        Some(param) => {
                            let action = note_control_action(param, is_note_on);
                            self.apply_action(id, action, now_ms)
                        },
                        None => MidiStepOutput::Nothing,
                    },
                }
            },
            MidiInputEvent::ControlChange { channel, cc, value } => {
                let id = FullMidiIdentifier::ControlChange(FullMidiControlId { port_name: self.port_name.clone(), channel, cc });
                self.last_control = Some((id.duplicate(), now_ms));
                if self.mod_learn_active {
                    return MidiStepOutput::ModSourceLearned(MidiControlId { channel, cc });
                }
                match self.learn_target {
                    Some(param) => {
                        self.learn_target = None;
                        self.mappings.learn(id, param);
                        MidiStepOutput::Learned(param)
                    },
                    None => {
                        let resolved = resolve_cc_control(
                            &self.mappings,
                            &self.modes,
                            &self.inversions,
                            &self.port_name,
                            channel,
                            cc,
                        );
                        match resolved {
                            Some(control) => {
                                assert(message@[2] <= 127);
                                let action = control_action(&control, value);
                                self.apply_action(id, action, now_ms)
                            },
                            None => MidiStepOutput::Nothing,
                        }
                    },
                }
            },
        }
    }
    /// The periodic check of held looper buttons at `now_ms`: each one held
    /// long enough clears its looper once and is no longer held. The cleared
    /// loopers come in the order of their controls.
    pub fn on_timer(&mut self, now_ms: u64) -> (r: Vec<usize>)
        ensures
            final(self)@ == after_hold_check(old(self)@, now_ms),
            exists|ks: Seq<MidiIdView>| cleared_loopers(old(self)@, now_ms, ks, r@),
    {
        let ghost v = self@;
        let held = self.held_since_ms.to_vec();
        let ghost e = held@;
        let mut r: Vec<usize> = Vec::new();
        let ghost mut ks: Seq<MidiIdView> = Seq::empty();
        let mut j: usize = 0;
        proof {
            let m0 = Map::new(
                |k: MidiIdView| v.held_since.contains_key(k) && !(clears_on_hold(v, k, now_ms)
                    && exists|a: int| 0 <= a < 0 && (#[trigger] e[a]).0@ == k),
                |k: MidiIdView| v.held_since[k],
            );
            assert(self@.held_since =~= m0);
        }
        while j < held.len()
            invariant
                j <= e.len(),
                held@ == e,
                crate::midi_map::ids_sorted(e),
                crate::midi_map::keys_unique(e),
                crate::midi_map::entries_map(e) == v.held_since,
                self@ == (MidiInputView {
                    held_since: Map::new(
                        |k: MidiIdView| v.held_since.contains_key(k) && !(clears_on_hold(v, k, now_ms)
                            && exists|a: int| 0 <= a < j && (#[trigger] e[a]).0@ == k),
                        |k: MidiIdView| v.held_since[k],
                    ),
                    ..v
                }),
                views_sorted(ks),
                forall|k: MidiIdView| ks.contains(k) <==> (clears_on_hold(v, k, now_ms)
                    && exists|a: int| 0 <= a < j && (#[trigger] e[a]).0@ == k),
                forall|i: int| 0 <= i < ks.len() ==> exists|a: int| 0 <= a < j && (#[trigger] e[a]).0@ == #[trigger] ks[i],
                r@.len() == ks.len(),
                forall|i: int| 0 <= i < ks.len() ==> v.mappings[#[trigger] ks[i]] == ControllableParameter::Looper(r@[i]),
            decreases e.len() - j,
        {
            let pressed = held[j].1;
            let ghost k = e[j as int].0@;
            let ghost before_ks = ks;
            let ghost before_self = self@;
            proof {
                crate::midi_map::lemma_entry_is_value(e, j as int);
                assert(v.held_since.contains_key(k) && v.held_since[k] == pressed);
                assert forall|a: int| 0 <= a < j implies (#[trigger] e[a]).0@ != k by {
                    assert(e[a].0@ != e[j as int].0@);
                }
            }
            let mut cleared = false;
            if pressed <= now_ms && hold_clears_looper(pressed, now_ms) {
                match self.mappings.get(&held[j].0) {
                    Some(ControllableParameter::Looper(index)) => {
                        let _ = self.held_since_ms.remove(&held[j].0);
                        r.push(index);
                        cleared = true;
                        proof {
                            ks = ks.push(k);
                        }
                    },
                    _ => {},
                }
            }
            proof {
                assert(cleared == clears_on_hold(v, k, now_ms));
                let nm = Map::new(
                    |q: MidiIdView| v.held_since.contains_key(q) && !(clears_on_hold(v, q, now_ms)
                        && exists|a: int| 0 <= a < j + 1 && (#[trigger] e[a]).0@ == q),
                    |q: MidiIdView| v.held_since[q],
                );
                assert(e[j as int].0@ == k);
                assert forall|q: MidiIdView| #[trigger] self@.held_since.contains_key(q) == nm.contains_key(q) by {
                    if q != k {
                        if exists|a: int| 0 <= a < j + 1 && (#[trigger] e[a]).0@ == q {
                            let a = choose|a: int| 0 <= a < j + 1 && (#[trigger] e[a]).0@ == q;
                            assert(a < j);
                        }
                    }
                }
                assert(self@.held_since =~= nm);
                if cleared {
                    assert forall|i: int, i2: int| 0 <= i < i2 < ks.len() implies id_lt(#[trigger] ks[i], #[trigger] ks[i2]) by {
                        if i2 == ks.len() - 1 {
                            assert(ks[i] == before_ks[i]);
                            let a = choose|a: int| 0 <= a < j && (#[trigger] e[a]).0@ == before_ks[i];
                            assert(id_lt(e[a].0@, e[j as int].0@));
                        } else {
                            assert(ks[i] == before_ks[i] && ks[i2] == before_ks[i2]);
                        }
                    }
                    assert forall|q: MidiIdView| ks.contains(q) <==> before_ks.contains(q) || q == k by {
                        if ks.contains(q) {
                            let i = choose|i: int| 0 <= i < ks.len() && ks[i] == q;
                            if i < before_ks.len() {
                                assert(before_ks[i] == q);
                            }
                        }
                        if before_ks.contains(q) {
                            let i = choose|i: int| 0 <= i < before_ks.len() && before_ks[i] == q;
                            assert(ks[i] == q);
                        }
                        if q == k {
                            assert(ks[ks.len() - 1] == q);
                        }
                    }
                    assert forall|i: int| 0 <= i < ks.len() implies exists|a: int| 0 <= a < j + 1 && (#[trigger] e[a]).0@ == #[trigger] ks[i] by {
                        if i < before_ks.len() {
                            assert(ks[i] == before_ks[i]);
                        } else {
                            assert(e[j as int].0@ == ks[i]);
                        }
                    }
                    assert forall|i: int| 0 <= i < ks.len() implies v.mappings[#[trigger] ks[i]] == ControllableParameter::Looper(r@[i]) by {
                        if i < before_ks.len() {
                            assert(ks[i] == before_ks[i]);
                        }
                    }
                } else {
                    assert forall|i: int| 0 <= i < ks.len() implies exists|a: int| 0 <= a < j + 1 && (#[trigger] e[a]).0@ == #[trigger] ks[i] by {
                        let a = choose|a: int| 0 <= a < j && (#[trigger] e[a]).0@ == ks[i];
                    }
                }
            }
            j = j + 1;
        }
        proof {
            assert forall|q: MidiIdView| v.held_since.contains_key(q) implies exists|a: int| 0 <= a < e.len() && (#[trigger] e[a]).0@ == q by {
                assert(crate::midi_map::entries_map(e).contains_key(q));
            }
            assert(self@.held_since =~= after_hold_check(v, now_ms).held_since);
            assert(cleared_loopers(v, now_ms, ks, r@));
        }
        r
    }
}

/// A press that takes effect silences the same control for the debounce
/// time: a second press at most that long after it does nothing.
pub proof fn lemma_press_is_debounced(
    v: MidiInputView,
    k: MidiIdView,
    param: ControllableParameter,
    holds: bool,
    t: u64,
    t2: u64,
)
    requires
        press_effective(map_get(v.last_press, k), t),
        t <= t2 <= t + DEBOUNCE_MS,
    ensures
        action_step(v, k, ControlAction::Press { param, holds }, t).1 == MidiStepOutput::Pressed(param),
        action_step(action_step(v, k, ControlAction::Press { param, holds }, t).0, k, ControlAction::Press { param, holds }, t2).1
            == MidiStepOutput::Nothing,
{
}

/// A held looper button clears its track once: after the hold timer has
/// cleared it, later ticks do not clear it again until it is pressed anew.
pub proof fn lemma_hold_clears_once(v: MidiInputView, k: MidiIdView, now: u64, later: u64)
    requires
        clears_on_hold(v, k, now),
    ensures
        !clears_on_hold(after_hold_check(v, now), k, later),
        !after_hold_check(v, now).held_since.contains_key(k),
{
}

/// A release of a looper button ends its hold, so the hold timer does not clear its track.
pub proof fn lemma_release_ends_hold(v: MidiInputView, k: MidiIdView, param: ControllableParameter, t: u64, later: u64)
    ensures
        !clears_on_hold(action_step(v, k, ControlAction::Release { param, holds: true }, t).0, k, later),
{
}

} // verus!
