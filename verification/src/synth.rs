//! Envelope stages, the voice/sample-slot choices of the sample-based engine,
//! and the modulation vocabulary of the synth engines: filter types, LFO
//! shapes and rate modes, modulation sources and destinations, and their names.

use vstd::prelude::*;
use crate::settings::MidiControlId;
use crate::text::{decimal, push_decimal};
use vstd::string::StringExecFns;

verus! {

/// Stage of an ADSR envelope.
#[derive(Clone, Copy, Debug, PartialEq, Eq, Structural)]
pub enum AdsrState {
    Idle,
    Attack,
    Decay,
    Sustain,
    Release,
}

impl AdsrState {
    /// The stage after a note-on: the envelope restarts its attack.
    pub fn after_note_on(self) -> (r: AdsrState)
        ensures
            r == AdsrState::Attack,
    {
        AdsrState::Attack
    }

    /// The stage after a note-off: a sounding envelope releases, an idle one stays idle.
    pub fn after_note_off(self) -> (r: AdsrState)
        ensures
            r == (if self == AdsrState::Idle { AdsrState::Idle } else { AdsrState::Release }),
    {
        if self != AdsrState::Idle {
            AdsrState::Release
        } else {
            AdsrState::Idle
        }
    }
}

/// Number of sample slots of the sample-based engine.
pub const NUM_SAMPLE_SLOTS: usize = 8;

/// What voice allocation reads of one voice.
#[derive(Clone, Copy, Debug, PartialEq, Eq, Structural)]
pub struct VoiceInfo {
    /// The note the voice plays.
    pub note_id: u8,
    /// The stage of its amplitude envelope.
    pub amp_state: AdsrState,
    /// Samples since its note started (saturating).
    pub age: u32,
    /// Whether it holds sample data.
    pub has_sample: bool,
}

/// A voice sounds while its envelope is not idle and it has sample data.
pub open spec fn voice_active(v: VoiceInfo) -> bool {
    v.amp_state != AdsrState::Idle && v.has_sample
}

impl VoiceInfo {
    /// Whether the voice sounds.
    pub fn is_active(&self) -> (r: bool)
        ensures
            r == voice_active(*self),
    {
        self.amp_state != AdsrState::Idle && self.has_sample
    }
}

/// The slot the notes of an octave prefer: octave n (notes 12 n to 12 n + 11)
/// prefers slot n - 1, octaves 0 and 1 slot 0, high octaves the last slot.
pub open spec fn ideal_slot(note: u8, num_slots: int) -> int {
    let octave = note / 12;
    let wanted = if octave >= 1 { octave - 1 } else { 0 };
    if wanted < num_slots - 1 { wanted } else { num_slots - 1 }
}

/// The slot that plays a note: the first loaded slot from the ideal one
/// upwards, else the nearest loaded slot below it, else none.
pub open spec fn slot_choice(note: u8, loaded: Seq<bool>) -> Option<usize> {
    let ideal = ideal_slot(note, loaded.len() as int);
    if exists|k: int| ideal <= k < loaded.len() && loaded[k] {
        Some((choose|k: int| ideal <= k < loaded.len() && loaded[k] && forall|j: int| ideal <= j < k ==> !loaded[j]) as usize)
    } else if exists|k: int| 0 <= k < ideal && loaded[k] {
        Some((choose|k: int| 0 <= k < ideal && loaded[k] && forall|j: int| k < j < ideal ==> !loaded[j]) as usize)
    } else {
        None
    }
}

/// Chooses the sample slot that plays a note (see `slot_choice`).
pub fn choose_sample_slot(note: u8, loaded: &Vec<bool>) -> (r: Option<usize>)
    requires
        loaded@.len() > 0,
    ensures
        r == slot_choice(note, loaded@),
{
    let n = loaded.len();
    let octave = note / 12;
    let wanted: usize = if octave >= 1 { (octave - 1) as usize } else { 0 };
    let ideal = if wanted < n - 1 { wanted } else { n - 1 };
    let mut k = ideal;
    while k < n
        invariant
            ideal <= k <= n,
            n == loaded@.len(),
            ideal == ideal_slot(note, n as int),
            forall|j: int| ideal <= j < k ==> !loaded@[j],
        decreases n - k,
    {
        if loaded[k] {
            proof {
                let c = choose|c: int| ideal <= c < loaded@.len() && loaded@[c] && forall|j: int| ideal <= j < c ==> !loaded@[j];
                assert(c == k) by {
                    if c < k {
                    } else if c > k {
                        assert(!loaded@[k as int]);
                    }
                }
            }
            return Some(k);
        }
        k = k + 1;
    }
    let mut b = ideal;
    while b > 0
        invariant
            b <= ideal,
            ideal < n,
            n == loaded@.len(),
            ideal == ideal_slot(note, n as int),
            forall|j: int| ideal <= j < n ==> !loaded@[j],
            forall|j: int| b <= j < ideal ==> !loaded@[j],
        decreases b,
    {
        b = b - 1;
        if loaded[b] {
            proof {
                let c = choose|c: int| 0 <= c < ideal && loaded@[c] && forall|j: int| c < j < ideal ==> !loaded@[j];
                assert(c == b) by {
                    if c < b {
                        assert(!loaded@[b as int]);
                    } else if c > b {
                    }
                }
            }
            return Some(b);
        }
    }
    None
}

/// The ordering key of voice stealing: idle voices first, then releasing
/// ones, then sounding ones; within a group the oldest.
pub open spec fn steal_priority(v: VoiceInfo) -> int {
    if v.amp_state == AdsrState::Idle {
        2
    } else if v.amp_state == AdsrState::Release {
        1
    } else {
        0
    }
}

/// Voice `a` ranks at least as high as voice `b` for stealing.
pub open spec fn ranks_at_least(a: VoiceInfo, b: VoiceInfo) -> bool {
    steal_priority(a) > steal_priority(b) || (steal_priority(a) == steal_priority(b) && a.age >= b.age)
}

/// The voice that takes a new note in polyphonic mode: the one of highest
/// rank, and of those the last.
pub open spec fn is_stolen_voice(voices: Seq<VoiceInfo>, i: int) -> bool {
    &&& 0 <= i < voices.len()
    &&& forall|j: int| 0 <= j < voices.len() ==> ranks_at_least(voices[i], #[trigger] voices[j])
    &&& forall|j: int| i < j < voices.len() ==> !ranks_at_least(#[trigger] voices[j], voices[i])
}

fn priority_of(v: &VoiceInfo) -> (r: u8)
    ensures
        r == steal_priority(*v),
{
    match v.amp_state {
        AdsrState::Idle => 2,
        AdsrState::Release => 1,
        _ => 0,
    }
}

/// Chooses the voice that plays a new note in polyphonic mode (see `is_stolen_voice`).
pub fn choose_voice(voices: &Vec<VoiceInfo>) -> (r: Option<usize>)
    ensures
        r matches Some(i) ==> is_stolen_voice(voices@, i as int),
        r is None <==> voices@.len() == 0,
{
    if voices.len() == 0 {
        return None;
    }
    let mut best: usize = 0;
    let mut i: usize = 1;
    while i < voices.len()
        invariant
            1 <= i <= voices@.len(),
            best < i,
            forall|j: int| 0 <= j < i ==> ranks_at_least(voices@[best as int], #[trigger] voices@[j]),
            forall|j: int| best < j < i ==> !ranks_at_least(#[trigger] voices@[j], voices@[best as int]),
        decreases voices@.len() - i,
    {
        let pb = priority_of(&voices[best]);
        let pi = priority_of(&voices[i]);
        if pi > pb || (pi == pb && voices[i].age >= voices[best].age) {
            best = i;
        }
        i = i + 1;
    }
    Some(best)
}

/// The voices a note-off releases: the sounding voices that play the note.
pub fn voices_playing_note(voices: &Vec<VoiceInfo>, note: u8) -> (r: Vec<bool>)
    ensures
        r@.len() == voices@.len(),
        forall|i: int| 0 <= i < voices@.len() ==> #[trigger] r@[i] == (voices@[i].note_id == note && voice_active(voices@[i])),
{
    let mut r: Vec<bool> = Vec::new();
    let mut i: usize = 0;
    while i < voices.len()
        invariant
            i <= voices@.len(),
            r@.len() == i,
            forall|k: int| 0 <= k < i ==> #[trigger] r@[k] == (voices@[k].note_id == note && voice_active(voices@[k])),
        decreases voices@.len() - i,
    {
        r.push(voices[i].note_id == note && voices[i].is_active());
        i = i + 1;
    }
    r
}

/// The sounding voice that keeps playing when the engine turns monophonic:
/// the oldest, and of equally old ones the last.
pub open spec fn is_mono_survivor(voices: Seq<VoiceInfo>, i: int) -> bool {
    &&& 0 <= i < voices.len()
    &&& voice_active(voices[i])
    &&& forall|j: int| 0 <= j < voices.len() && voice_active(#[trigger] voices[j]) ==> voices[j].age <= voices[i].age
    &&& forall|j: int| i < j < voices.len() && voice_active(#[trigger] voices[j]) ==> voices[j].age < voices[i].age
}

/// When the engine turns monophonic with more than one voice sounding, all
/// sounding voices but the survivor (see `is_mono_survivor`) are released.
/// Returns the survivor, or none when at most one voice sounds.
pub fn mono_survivor(voices: &Vec<VoiceInfo>) -> (r: Option<usize>)
    ensures
        r matches Some(i) ==> is_mono_survivor(voices@, i as int),
        r matches Some(i) ==> exists|j: int| 0 <= j < voices@.len() && j != i && voice_active(#[trigger] voices@[j]),
        r is None ==> forall|a: int, b: int| 0 <= a < voices@.len() && 0 <= b < voices@.len()
            && voice_active(#[trigger] voices@[a]) && voice_active(#[trigger] voices@[b]) ==> a == b,
{
    let mut best: Option<usize> = None;
    let mut count: usize = 0;
    let mut other: usize = 0;
    let mut i: usize = 0;
    while i < voices.len()
        invariant
            i <= voices@.len(),
            count <= i,
            count == 0 <==> best is None,
            count == 0 ==> forall|j: int| 0 <= j < i ==> !voice_active(#[trigger] voices@[j]),
            count == 1 ==> (best matches Some(b) && forall|j: int| 0 <= j < i && voice_active(#[trigger] voices@[j]) ==> j == b),
            count >= 2 ==> (best matches Some(b) && other < i && other != b && voice_active(voices@[other as int])),
            best matches Some(b) ==> b < i && is_mono_survivor(voices@.take(i as int), b as int),
        decreases voices@.len() - i,
    {
        let ghost prefix = voices@.take(i as int);
        let ghost next = voices@.take(i + 1);
        assert(next =~= prefix.push(voices@[i as int]));
        if voices[i].is_active() {
            match best {
                Some(b) => {
                    if voices[i].age >= voices[b].age {
                        other = b;
                        best = Some(i);
                        assert(is_mono_survivor(next, i as int)) by {
                            assert forall|j: int| 0 <= j < next.len() && voice_active(#[trigger] next[j]) implies next[j].age <= next[i as int].age by {
                                if j < i {
                                    assert(prefix[j] == next[j]);
                                }
                            }
                        }
                    } else {
                        other = i;
                        assert(is_mono_survivor(next, b as int)) by {
                            assert forall|j: int| 0 <= j < next.len() && voice_active(#[trigger] next[j]) implies next[j].age <= next[b as int].age by {
                                if j < i {
                                    assert(prefix[j] == next[j]);
                                }
                            }
                            assert forall|j: int| b < j < next.len() && voice_active(#[trigger] next[j]) implies next[j].age < next[b as int].age by {
                                if j < i {
                                    assert(prefix[j] == next[j]);
                                }
                            }
                        }
                    }
                    count = if count < 2 { count + 1 } else { 2 };
                },
                None => {
                    best = Some(i);
                    count = 1;
                    assert(is_mono_survivor(next, i as int)) by {
                        assert forall|j: int| 0 <= j < next.len() && voice_active(#[trigger] next[j]) implies j == i by {
                            if j < i {
                                assert(prefix[j] == next[j]);
                            }
                        }
                    }
                },
            }
        } else {
            match best {
                Some(b) => {
                    assert(is_mono_survivor(next, b as int)) by {
                        assert forall|j: int| 0 <= j < next.len() && voice_active(#[trigger] next[j]) implies next[j].age <= next[b as int].age by {
                            if j < i {
                                assert(prefix[j] == next[j]);
                            }
                        }
                        assert forall|j: int| b < j < next.len() && voice_active(#[trigger] next[j]) implies next[j].age < next[b as int].age by {
                            if j < i {
                                assert(prefix[j] == next[j]);
                            }
                        }
                    }
                },
                None => {},
            }
        }
        i = i + 1;
    }
    assert(voices@.take(voices@.len() as int) =~= voices@);
    if count >= 2 {
        best
    } else {
        None
    }
}

/// Response of the synth's state-variable filter.
#[derive(Clone, Copy, Debug, PartialEq, Eq, Structural)]
pub enum FilterMode {
    LowPass,
    HighPass,
    BandPass,
}

/// The name under which the filter mode is shown.
pub open spec fn filter_mode_label(x: FilterMode) -> Seq<char> {
    match x {
        FilterMode::LowPass => "Low Pass"@,
        FilterMode::HighPass => "High Pass"@,
        FilterMode::BandPass => "Band Pass"@,
    }
}

impl FilterMode {
    /// The name under which the filter mode is shown.
    pub fn label(&self) -> (r: &'static str)
        ensures
            r@ == filter_mode_label(*self),
    {
        match self {
            FilterMode::LowPass => "Low Pass",
            FilterMode::HighPass => "High Pass",
            FilterMode::BandPass => "Band Pass",
        }
    }
}

/// Shape of a synth LFO.
#[derive(Clone, Copy, Debug, PartialEq, Eq, Structural)]
pub enum LfoWaveform {
    Sine,
    Triangle,
    Saw,
    InvSaw,
    Square,
    Random,
    Wavetable1,
    Wavetable2,
    Wavetable3,
    Wavetable4,
}

/// The name under which the waveform is shown.
pub open spec fn lfo_waveform_label(x: LfoWaveform) -> Seq<char> {
    match x {
        LfoWaveform::Sine => "Sine"@,
        LfoWaveform::Triangle => "Triangle"@,
        LfoWaveform::Saw => "Saw"@,
        LfoWaveform::InvSaw => "InvSaw"@,
        LfoWaveform::Square => "Square"@,
        LfoWaveform::Random => "Random"@,
        LfoWaveform::Wavetable1 => "Wavetable 1"@,
        LfoWaveform::Wavetable2 => "Wavetable 2"@,
        LfoWaveform::Wavetable3 => "Wavetable 3"@,
        LfoWaveform::Wavetable4 => "Wavetable 4"@,
    }
}

impl LfoWaveform {
    /// The name under which the waveform is shown.
    pub fn label(&self) -> (r: &'static str)
        ensures
            r@ == lfo_waveform_label(*self),
    {
        match self {
            LfoWaveform::Sine => "Sine",
            LfoWaveform::Triangle => "Triangle",
            LfoWaveform::Saw => "Saw",
            LfoWaveform::InvSaw => "InvSaw",
            LfoWaveform::Square => "Square",
            LfoWaveform::Random => "Random",
            LfoWaveform::Wavetable1 => "Wavetable 1",
            LfoWaveform::Wavetable2 => "Wavetable 2",
            LfoWaveform::Wavetable3 => "Wavetable 3",
            LfoWaveform::Wavetable4 => "Wavetable 4",
        }
    }
}

/// Whether an LFO runs at a free rate or synced to the transport.
#[derive(Clone, Copy, Debug, PartialEq, Eq, Structural)]
pub enum LfoRateMode {
    Hz,
    Sync,
}

/// A parameter that a modulation routing drives.
#[derive(Clone, Copy, Debug, PartialEq, Eq, Hash, Structural)]
pub enum ModDestination {
    WavetablePosition,
    Pitch,
    Amplitude,
    FilterCutoff,
    BellPosition,
    BellAmount,
    BellWidth,
    Saturation,
}

/// The name under which the destination is shown.
pub open spec fn mod_destination_label(x: ModDestination) -> Seq<char> {
    match x {
        ModDestination::WavetablePosition => "WT Position"@,
        ModDestination::Pitch => "Pitch"@,
        ModDestination::Amplitude => "Amplitude"@,
        ModDestination::FilterCutoff => "Filter Cutoff"@,
        ModDestination::BellPosition => "Bell Position"@,
        ModDestination::BellAmount => "Bell Amount"@,
        ModDestination::BellWidth => "Bell Width"@,
        ModDestination::Saturation => "Saturation"@,
    }
}

impl ModDestination {
    /// The name under which the destination is shown.
    pub fn label(&self) -> (r: &'static str)
        ensures
            r@ == mod_destination_label(*self),
    {
        match self {
            ModDestination::WavetablePosition => "WT Position",
            ModDestination::Pitch => "Pitch",
            ModDestination::Amplitude => "Amplitude",
            ModDestination::FilterCutoff => "Filter Cutoff",
            ModDestination::BellPosition => "Bell Position",
            ModDestination::BellAmount => "Bell Amount",
            ModDestination::BellWidth => "Bell Width",
            ModDestination::Saturation => "Saturation",
        }
    }
}

/// A signal that a modulation routing reads.
#[derive(Clone, Copy, Debug, PartialEq, Eq, Hash, Structural)]
pub enum ModSource {
    Lfo1,
    Lfo2,
    Env2,
    Velocity,
    Static,
    MidiCC(MidiControlId),
}

/// The name under which a modulation source is shown; a MIDI CC shows its
/// controller number and its one-based channel.
pub open spec fn mod_source_label(x: ModSource) -> Seq<char> {
    match x {
        ModSource::Lfo1 => "Lfo1"@,
        ModSource::Lfo2 => "Lfo2"@,
        ModSource::Env2 => "Env2"@,
        ModSource::Velocity => "Velocity"@,
        ModSource::Static => "Static"@,
        ModSource::MidiCC(id) => "MIDI CC "@ + decimal(id.cc as nat) + " (Ch "@ + decimal((id.channel + 1) as nat) + ")"@,
    }
}

impl ModSource {
    /// The name under which the source is shown.
    pub fn label(&self) -> (r: String)
        requires
            *self matches ModSource::MidiCC(id) ==> id.channel < 255,
        ensures
            r@ == mod_source_label(*self),
    {
        match self {
            ModSource::Lfo1 => String::from_str("Lfo1"),
            ModSource::Lfo2 => String::from_str("Lfo2"),
            ModSource::Env2 => String::from_str("Env2"),
            ModSource::Velocity => String::from_str("Velocity"),
            ModSource::Static => String::from_str("Static"),
            ModSource::MidiCC(id) => {
                let mut out = String::new();
                out.append("MIDI CC ");
                push_decimal(&mut out, id.cc as u64);
                out.append(" (Ch ");
                push_decimal(&mut out, (id.channel + 1) as u64);
                out.append(")");
                assert(out@ =~= mod_source_label(*self));
                out
            },
        }
    }
}

/// The pitch-class names, from C.
pub open spec fn pitch_class_name(pc: int) -> Seq<char> {
    if pc == 0 { "C"@ } else if pc == 1 { "C#"@ } else if pc == 2 { "D"@ } else if pc == 3 { "D#"@ }
    else if pc == 4 { "E"@ } else if pc == 5 { "F"@ } else if pc == 6 { "F#"@ } else if pc == 7 { "G"@ }
    else if pc == 8 { "G#"@ } else if pc == 9 { "A"@ } else if pc == 10 { "A#"@ } else { "B"@ }
}

/// The octave number shown with a note: the note read as a signed byte,
/// divided by 12 rounding toward zero, minus one (middle C, note 60, is C4).
pub open spec fn note_octave(note: u8) -> int {
    if note <= 127 { note / 12 - 1 } else { -((256 - note) / 12) - 1 }
}

/// A signed number in decimal.
pub open spec fn signed_decimal(n: int) -> Seq<char> {
    if n < 0 { "-"@ + decimal((-n) as nat) } else { decimal(n as nat) }
}

/// The name of a MIDI note: its pitch class and its octave, as `C4` or `A#-1`.
pub open spec fn note_name(note: u8) -> Seq<char> {
    pitch_class_name((note % 12) as int) + signed_decimal(note_octave(note))
}

fn pitch_class_str(pc: u8) -> (r: &'static str)
    requires
        pc < 12,
    ensures
        r@ == pitch_class_name(pc as int),
{
    match pc {
        0 => "C",
        1 => "C#",
        2 => "D",
        3 => "D#",
        4 => "E",
        5 => "F",
        6 => "F#",
        7 => "G",
        8 => "G#",
        9 => "A",
        10 => "A#",
        _ => "B",
    }
}

/// The name of a MIDI note (see `note_name`).
pub fn midi_to_note_name(note: u8) -> (r: String)
    ensures
        r@ == note_name(note),
{
    let mut out = String::new();
    out.append(pitch_class_str(note % 12));
    if note <= 127 {
        let tens = note / 12;
        if tens == 0 {
            out.append("-");
            push_decimal(&mut out, 1);
        } else {
            push_decimal(&mut out, (tens - 1) as u64);
        }
    } else {
        let magnitude = (256 - note as u16) / 12 + 1;
        out.append("-");
        push_decimal(&mut out, magnitude as u64);
    }
    assert(out@ =~= note_name(note));
    out
}

} // verus!
