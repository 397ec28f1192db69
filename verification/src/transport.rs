//! The looper/transport state machine of the audio engine.
//!
//! The audio samples themselves stay with the caller; this model tracks what the
//! engine decides about them: each track's state, the length of its recorded
//! audio, its playhead and queued commands, the transport length and position,
//! the mixer's mute/solo switches and the instrument toggles.

use vstd::prelude::*;
use crate::looper::{LooperState, NUM_LOOPERS};

verus! {

/// Whether the transport is running.
#[derive(Clone, Copy, Debug, PartialEq, Eq, Structural)]
pub enum TransportState {
    Playing,
    Paused,
}

/// The engine's model of one looper track.
#[derive(Clone, Copy, Debug, PartialEq, Eq, Structural)]
pub struct LooperTrack {
    pub state: LooperState,
    /// Number of samples of recorded audio held by the track.
    pub audio_len: usize,
    /// A press that takes effect at the next cycle boundary.
    pub pending_command: bool,
    /// Recording stops at the next cycle boundary.
    pub stop_is_queued: bool,
    /// Number of transport cycles recorded so far.
    pub cycles_recorded: u32,
    /// Read position inside the recorded audio.
    pub playhead: usize,
    /// Loop length in transport cycles, as shown to the user.
    pub length_in_cycles: u32,
    /// Samples written since the waveform overview was last refreshed.
    pub samples_since_waveform_update: usize,
}

/// Mute and solo switches of one mixer channel.
#[derive(Clone, Copy, Debug, PartialEq, Eq, Structural)]
pub struct MixerTrack {
    pub is_muted: bool,
    pub is_soloed: bool,
}

/// Transport length and position as stored between audio blocks.
#[derive(Clone, Copy, Debug, PartialEq, Eq, Structural)]
pub struct TransportInfo {
    pub len_samples: usize,
    pub playhead: usize,
    pub is_playing: bool,
    pub state: TransportState,
}

/// On/off switches of the instruments, the audio input and the limiter.
#[derive(Clone, Copy, Debug, PartialEq, Eq, Structural)]
pub struct Switches {
    pub synth_is_active: bool,
    pub sampler_is_active: bool,
    pub audio_input_is_armed: bool,
    pub audio_input_is_monitored: bool,
    pub limiter_is_active: bool,
    /// Set when the user interface should start or stop output recording.
    pub should_toggle_record: bool,
}

/// Working copy of the transport length and position for one audio block.
#[derive(Clone, Copy, Debug, PartialEq, Eq, Structural)]
pub struct BlockCursor {
    pub transport_len: usize,
    pub transport_playhead: usize,
}

/// The looper/transport state of the audio engine.
pub struct TransportCore {
    pub loopers: Vec<LooperTrack>,
    pub mixer: Vec<MixerTrack>,
    pub transport: TransportInfo,
    pub switches: Switches,
}

/// A track that is heard reads its audio at the playhead, which must lie inside it.
pub open spec fn track_ok(l: LooperTrack) -> bool {
    (l.state == LooperState::Playing || l.state == LooperState::Overdubbing) && l.audio_len > 0
        ==> l.playhead < l.audio_len
}

pub open spec fn tracks_ok(s: Seq<LooperTrack>) -> bool {
    forall|i: int| 0 <= i < s.len() ==> track_ok(#[trigger] s[i])
}

/// A fresh, empty track.
pub open spec fn empty_track() -> LooperTrack {
    LooperTrack {
        state: LooperState::Empty,
        audio_len: 0,
        pending_command: false,
        stop_is_queued: false,
        cycles_recorded: 0,
        playhead: 0,
        length_in_cycles: 0,
        samples_since_waveform_update: 0,
    }
}

/// A track after it has been cleared: no audio, nothing queued, back to `Empty`.
pub open spec fn cleared_track(l: LooperTrack) -> LooperTrack {
    LooperTrack {
        state: LooperState::Empty,
        audio_len: 0,
        pending_command: false,
        stop_is_queued: false,
        cycles_recorded: 0,
        playhead: 0,
        length_in_cycles: 0,
        ..l
    }
}

/// A press on a running track: playing and overdubbing swap at once, any other
/// state queues the press for the next cycle (an empty track is armed).
pub open spec fn toggled_track(l: LooperTrack) -> LooperTrack {
    match l.state {
        LooperState::Playing => LooperTrack { state: LooperState::Overdubbing, ..l },
        LooperState::Overdubbing => LooperTrack { state: LooperState::Playing, ..l },
        LooperState::Empty => LooperTrack { pending_command: true, state: LooperState::Armed, ..l },
        _ => LooperTrack { pending_command: true, ..l },
    }
}

pub open spec fn all_tracks_silent(s: Seq<LooperTrack>) -> bool {
    forall|i: int| 0 <= i < s.len() ==> (#[trigger] s[i]).audio_len == 0
}

pub open spec fn default_mixer() -> Seq<MixerTrack> {
    Seq::new(NUM_LOOPERS as nat, |i: int| MixerTrack { is_muted: false, is_soloed: false })
}


/// Arming a track disarms every other armed track.
pub open spec fn armed_only(s: Seq<LooperTrack>, id: int) -> Seq<LooperTrack> {
    Seq::new(
        s.len(),
        |i: int|
            if i == id {
                LooperTrack { state: LooperState::Armed, ..s[i] }
            } else if s[i].state == LooperState::Armed {
                LooperTrack { state: LooperState::Empty, ..s[i] }
            } else {
                s[i]
            },
    )
}

/// Every track rewound to the start of its audio.
pub open spec fn rewound(s: Seq<LooperTrack>) -> Seq<LooperTrack> {
    Seq::new(s.len(), |i: int| LooperTrack { playhead: 0, ..s[i] })
}

/// Every track cleared.
pub open spec fn all_cleared(s: Seq<LooperTrack>) -> Seq<LooperTrack> {
    Seq::new(s.len(), |i: int| cleared_track(s[i]))
}

/// A channel is heard when it is soloed, or, while no channel is soloed, when it is not muted.
pub open spec fn channel_audible(m: Seq<MixerTrack>, i: int) -> bool {
    if exists|k: int| 0 <= k < m.len() && (#[trigger] m[k]).is_soloed {
        m[i].is_soloed
    } else {
        !m[i].is_muted
    }
}

pub open spec fn all_muted(m: Seq<MixerTrack>) -> bool {
    forall|k: int| 0 <= k < m.len() ==> (#[trigger] m[k]).is_muted
}

/// "Mute all" mutes every channel unless all are muted already, in which case it unmutes them.
pub open spec fn mute_all_toggled(m: Seq<MixerTrack>) -> Seq<MixerTrack> {
    Seq::new(m.len(), |i: int| MixerTrack { is_muted: !all_muted(m), ..m[i] })
}


/// At a cycle boundary a queued press takes effect: a recording track queues
/// its stop, an empty or armed track starts recording afresh, playing and
/// overdubbing swap, a stopped track restarts from the top.
pub open spec fn wrap_pending(l: LooperTrack) -> LooperTrack {
    if !l.pending_command {
        l
    } else {
        let m = match l.state {
            LooperState::Recording => LooperTrack { stop_is_queued: true, ..l },
            LooperState::Empty | LooperState::Armed => LooperTrack {
                audio_len: 0,
                playhead: 0,
                cycles_recorded: 0,
                stop_is_queued: false,
                state: LooperState::Recording,
                length_in_cycles: 0,
                ..l
            },
            LooperState::Playing => LooperTrack { state: LooperState::Overdubbing, ..l },
            LooperState::Overdubbing => LooperTrack { state: LooperState::Playing, ..l },
            LooperState::Stopped => LooperTrack { playhead: 0, state: LooperState::Playing, ..l },
        };
        LooperTrack { pending_command: false, ..m }
    }
}

/// The number of samples a track keeps when its queued stop takes effect.
pub open spec fn final_len(l: LooperTrack, transport_len: usize) -> int {
    transport_len * l.cycles_recorded
}

/// Whether a queued stop leaves the track without audio, so that it is cleared.
pub open spec fn stop_clears(l: LooperTrack, transport_len: usize) -> bool {
    l.stop_is_queued && final_len(l, transport_len) == 0
}

/// A queued stop trims the recording to whole cycles and starts playing it,
/// or clears the track when nothing whole was recorded.
pub open spec fn wrap_stop(l: LooperTrack, transport_len: usize) -> LooperTrack {
    if l.stop_is_queued {
        if final_len(l, transport_len) > 0 {
            LooperTrack {
                audio_len: final_len(l, transport_len) as usize,
                state: LooperState::Playing,
                playhead: 0,
                length_in_cycles: l.cycles_recorded,
                stop_is_queued: false,
                ..l
            }
        } else {
            cleared_track(l)
        }
    } else {
        l
    }
}

/// A track that goes on recording counts one more cycle.
pub open spec fn wrap_count(l: LooperTrack) -> LooperTrack {
    if l.state == LooperState::Recording {
        LooperTrack { cycles_recorded: (l.cycles_recorded + 1) as u32, ..l }
    } else {
        l
    }
}

/// Everything a cycle boundary does to one track.
pub open spec fn wrapped_track(l: LooperTrack, transport_len: usize) -> LooperTrack {
    wrap_count(wrap_stop(wrap_pending(l), transport_len))
}

/// A cycle boundary does not overflow the track's counters.
pub open spec fn wrap_fits(l: LooperTrack, transport_len: usize) -> bool {
    let a = wrap_pending(l);
    &&& a.stop_is_queued ==> final_len(a, transport_len) <= usize::MAX
    &&& wrap_stop(a, transport_len).state == LooperState::Recording ==> a.cycles_recorded < u32::MAX
}

/// Whether a track's waveform overview must be recomputed at a cycle boundary:
/// it was overdubbing, or a queued stop finished or cleared it.
pub open spec fn wrap_refreshes(l: LooperTrack) -> bool {
    l.state == LooperState::Overdubbing || wrap_pending(l).stop_is_queued
}

/// The first track whose queued press should end the recording of the first loop.
pub open spec fn is_first_loop_candidate(s: Seq<LooperTrack>, id: int) -> bool {
    &&& 0 <= id < s.len()
    &&& s[id].pending_command && s[id].state == LooperState::Recording
    &&& forall|k: int| 0 <= k < id ==> !((#[trigger] s[k]).pending_command && s[k].state == LooperState::Recording)
}

/// One sample of track processing: an armed track starts recording on a loud
/// input while the transport plays without a length yet; a recording track
/// grows by the sample; a heard track advances its playhead.
pub open spec fn stepped_track(l: LooperTrack, playing: bool, transport_len: usize, input_loud: bool) -> LooperTrack {
    match l.state {
        LooperState::Armed => if playing && transport_len == 0 && input_loud {
            LooperTrack { state: LooperState::Recording, cycles_recorded: 1, ..l }
        } else {
            l
        },
        LooperState::Recording => if playing {
            LooperTrack {
                audio_len: (l.audio_len + 1) as usize,
                samples_since_waveform_update: (l.samples_since_waveform_update + 1) as usize,
                ..l
            }
        } else {
            l
        },
        LooperState::Playing | LooperState::Overdubbing => if l.audio_len > 0 {
            let counted = if l.state == LooperState::Overdubbing && playing {
                (l.samples_since_waveform_update + 1) as usize
            } else {
                l.samples_since_waveform_update
            };
            let head = if playing { ((l.playhead + 1) % (l.audio_len as int)) as usize } else { l.playhead };
            LooperTrack { samples_since_waveform_update: counted, playhead: head, ..l }
        } else {
            l
        },
        _ => l,
    }
}

/// One sample of track processing does not overflow its counters.
pub open spec fn step_fits(l: LooperTrack, playing: bool) -> bool {
    &&& (l.state == LooperState::Recording && playing) ==> l.audio_len < usize::MAX
        && l.samples_since_waveform_update < usize::MAX
    &&& (l.state == LooperState::Overdubbing && playing && l.audio_len > 0)
        ==> l.samples_since_waveform_update < usize::MAX
}

/// Number of written samples after which a track's waveform overview is refreshed.
pub open spec fn waveform_refresh_interval() -> usize {
    256
}


/// The switches after the synth is toggled.
pub open spec fn synth_toggled(sw: Switches) -> Switches {
    Switches {
        synth_is_active: !sw.synth_is_active,
        sampler_is_active: if sw.synth_is_active { sw.sampler_is_active } else { false },
        ..sw
    }
}

/// The switches after the sampler is toggled.
pub open spec fn sampler_toggled(sw: Switches) -> Switches {
    Switches {
        sampler_is_active: !sw.sampler_is_active,
        synth_is_active: if sw.sampler_is_active { sw.synth_is_active } else { false },
        ..sw
    }
}

/// Whether a sample starts a new transport cycle.
pub open spec fn at_cycle_start(c: BlockCursor) -> bool {
    c.transport_len > 0 && c.transport_playhead == 0
}

/// The tracks after the cycle boundary at a sample, if it is one.
pub open spec fn tracks_after_wrap(s: Seq<LooperTrack>, c: BlockCursor) -> Seq<LooperTrack> {
    if at_cycle_start(c) {
        Seq::new(s.len(), |i: int| wrapped_track(s[i], c.transport_len))
    } else {
        s
    }
}

/// The stored transport after the cycle boundary at a sample: reset when a
/// cleared track leaves no audio anywhere.
pub open spec fn transport_after_wrap(s: Seq<LooperTrack>, t: TransportInfo, c: BlockCursor) -> TransportInfo {
    if at_cycle_start(c) && (exists|i: int| 0 <= i < s.len() && stop_clears(#[trigger] wrap_pending(s[i]), c.transport_len))
        && all_tracks_silent(tracks_after_wrap(s, c)) {
        TransportInfo { len_samples: 0, playhead: 0, ..t }
    } else {
        t
    }
}

/// The track whose recording becomes the first loop at a sample, if any: the
/// first recording track with a queued press, while the transport has no
/// length and that track holds audio.
pub open spec fn first_loop_due(s: Seq<LooperTrack>, c: BlockCursor) -> Option<int> {
    if c.transport_len == 0 && exists|id: int| is_first_loop_candidate(s, id) && #[trigger] s[id].audio_len > 0 {
        Some(choose|id: int| is_first_loop_candidate(s, id) && #[trigger] s[id].audio_len > 0)
    } else {
        None
    }
}

/// The track that becomes the first loop, `len` samples long.
pub open spec fn first_loop_track(l: LooperTrack, len: usize) -> LooperTrack {
    LooperTrack {
        audio_len: len,
        state: LooperState::Playing,
        playhead: 0,
        cycles_recorded: 1,
        length_in_cycles: 1,
        pending_command: false,
        ..l
    }
}

/// The tracks, stored transport and block cursor once a sample's cycle
/// boundary and first-loop check are done, before the tracks process it.
pub open spec fn before_step(
    s: Seq<LooperTrack>,
    t: TransportInfo,
    c: BlockCursor,
    first_loop_len: usize,
) -> (Seq<LooperTrack>, TransportInfo, BlockCursor) {
    let w = tracks_after_wrap(s, c);
    let tw = transport_after_wrap(s, t, c);
    match first_loop_due(w, c) {
        Some(id) => (
            w.update(id, first_loop_track(w[id], first_loop_len)),
            TransportInfo { len_samples: first_loop_len, ..tw },
            BlockCursor { transport_len: first_loop_len, ..c },
        ),
        None => (w, tw, c),
    }
}

/// The block cursor after its position advances by a sample.
pub open spec fn advanced_cursor(c: BlockCursor, playing: bool) -> BlockCursor {
    if c.transport_len > 0 && playing {
        BlockCursor { transport_playhead: ((c.transport_playhead + 1) % (c.transport_len as int)) as usize, ..c }
    } else {
        c
    }
}

/// A sample can be processed without an arithmetic overflow.
pub open spec fn sample_fits(s: Seq<LooperTrack>, t: TransportInfo, c: BlockCursor, first_loop_len: usize) -> bool {
    let (e, te, ce) = before_step(s, t, c, first_loop_len);
    let playing = t.state == TransportState::Playing;
    &&& at_cycle_start(c) ==> forall|i: int| 0 <= i < s.len() ==> wrap_fits(#[trigger] s[i], c.transport_len)
    &&& first_loop_due(tracks_after_wrap(s, c), c) is Some ==> first_loop_len > 0
    &&& forall|i: int| 0 <= i < e.len() ==> step_fits(#[trigger] e[i], playing)
    &&& ce.transport_len > 0 ==> ce.transport_playhead < usize::MAX
}

/// The first candidate for the first loop is the only one.
pub proof fn lemma_first_loop_candidate_unique(s: Seq<LooperTrack>, a: int, b: int)
    requires
        is_first_loop_candidate(s, a),
        is_first_loop_candidate(s, b),
    ensures
        a == b,
{
    if a < b {
        assert(!(s[a].pending_command && s[a].state == LooperState::Recording));
    } else if b < a {
        assert(!(s[b].pending_command && s[b].state == LooperState::Recording));
    }
}

/// The tracks, stored transport and block cursor after one sample (see
/// `TransportCore::process_sample`).
pub open spec fn after_sample(
    s: Seq<LooperTrack>,
    t: TransportInfo,
    c: BlockCursor,
    input_loud: bool,
    first_loop_len: usize,
) -> (Seq<LooperTrack>, TransportInfo, BlockCursor) {
    let (e, te, ce) = before_step(s, t, c, first_loop_len);
    let playing = t.state == TransportState::Playing;
    (Seq::new(e.len(), |i: int| stepped_track(e[i], playing, ce.transport_len, input_loud)), te, advanced_cursor(ce, playing))
}

/// Whether the first loop is established at a sample.
pub open spec fn first_loop_due_at(st: (Seq<LooperTrack>, TransportInfo, BlockCursor)) -> bool {
    first_loop_due(tracks_after_wrap(st.0, st.2), st.2) is Some
}

/// The state after `k` samples of which none establishes the first loop,
/// `loud[j]` telling whether the input is loud at sample `j`.
pub open spec fn samples_run(
    st: (Seq<LooperTrack>, TransportInfo, BlockCursor),
    loud: Seq<bool>,
    k: nat,
) -> (Seq<LooperTrack>, TransportInfo, BlockCursor)
    decreases k,
{
    if k == 0 {
        st
    } else {
        let p = samples_run(st, loud, (k - 1) as nat);
        after_sample(p.0, p.1, p.2, loud[k - 1], 0)
    }
}

/// Whether a track's waveform overview is recomputed at a cycle boundary among the first `k` samples.
pub open spec fn refreshed_in_run(st: (Seq<LooperTrack>, TransportInfo, BlockCursor), loud: Seq<bool>, k: nat, i: int) -> bool {
    exists|j: int| 0 <= j < k && at_cycle_start(#[trigger] samples_run(st, loud, j as nat).2)
        && wrap_refreshes(samples_run(st, loud, j as nat).0[i])
}

impl TransportCore {
    /// Well-formedness: one track and one mixer channel per looper, every
    /// heard track with its playhead inside its audio.
    pub open spec fn wf(&self) -> bool {
        &&& self.loopers@.len() == NUM_LOOPERS
        &&& self.mixer@.len() == NUM_LOOPERS
        &&& tracks_ok(self.loopers@)
    }

    /// A new engine: all tracks empty, transport at zero length, mixer at defaults.
    pub fn new(transport_is_playing: bool) -> (r: TransportCore)
        ensures
            r.wf(),
            r.loopers@ == Seq::new(NUM_LOOPERS as nat, |i: int| empty_track()),
            r.mixer@ == default_mixer(),
            r.transport == (TransportInfo {
                len_samples: 0,
                playhead: 0,
                is_playing: transport_is_playing,
                state: TransportState::Playing,
            }),
            r.switches == (Switches {
                synth_is_active: false,
                sampler_is_active: false,
                audio_input_is_armed: false,
                audio_input_is_monitored: false,
                limiter_is_active: true,
                should_toggle_record: false,
            }),
    {
        let mut loopers: Vec<LooperTrack> = Vec::new();
        let mut mixer: Vec<MixerTrack> = Vec::new();
        let mut i: usize = 0;
        while i < NUM_LOOPERS
            invariant
                i <= NUM_LOOPERS,
                loopers@ == Seq::new(i as nat, |k: int| empty_track()),
                mixer@ == Seq::new(i as nat, |k: int| MixerTrack { is_muted: false, is_soloed: false }),
            decreases NUM_LOOPERS - i,
        {
            loopers.push(LooperTrack {
                state: LooperState::Empty,
                audio_len: 0,
                pending_command: false,
                stop_is_queued: false,
                cycles_recorded: 0,
                playhead: 0,
                length_in_cycles: 0,
                samples_since_waveform_update: 0,
            });
            mixer.push(MixerTrack { is_muted: false, is_soloed: false });
            i = i + 1;
        }
        TransportCore {
            loopers,
            mixer,
            transport: TransportInfo {
                len_samples: 0,
                playhead: 0,
                is_playing: transport_is_playing,
                state: TransportState::Playing,
            },
            switches: Switches {
                synth_is_active: false,
                sampler_is_active: false,
                audio_input_is_armed: false,
                audio_input_is_monitored: false,
                limiter_is_active: true,
                should_toggle_record: false,
            },
        }
    }

    /// Whether every track is free of audio.
    pub fn all_silent(&self) -> (r: bool)
        ensures
            r == all_tracks_silent(self.loopers@),
    {
        let mut i: usize = 0;
        while i < self.loopers.len()
            invariant
                i <= self.loopers@.len(),
                forall|k: int| 0 <= k < i ==> (#[trigger] self.loopers@[k]).audio_len == 0,
            decreases self.loopers@.len() - i,
        {
            if self.loopers[i].audio_len != 0 {
                return false;
            }
            i = i + 1;
        }
        true
    }

    /// Clears one track; when no track holds audio any more, the transport is
    /// reset to zero length.
    pub fn clear_looper(&mut self, id: usize)
        requires
            old(self).wf(),
            id < NUM_LOOPERS,
        ensures
            final(self).wf(),
            final(self).loopers@ == old(self).loopers@.update(id as int, cleared_track(old(self).loopers@[id as int])),
            final(self).mixer@ == old(self).mixer@,
            final(self).switches == old(self).switches,
            all_tracks_silent(final(self).loopers@) ==> final(self).transport == (TransportInfo {
                len_samples: 0,
                playhead: 0,
                ..old(self).transport
            }),
            !all_tracks_silent(final(self).loopers@) ==> final(self).transport == old(self).transport,
    {
        let l = self.loopers[id];
        self.loopers[id] = LooperTrack {
            state: LooperState::Empty,
            audio_len: 0,
            pending_command: false,
            stop_is_queued: false,
            cycles_recorded: 0,
            playhead: 0,
            length_in_cycles: 0,
            samples_since_waveform_update: l.samples_since_waveform_update,
        };
        if self.all_silent() {
            self.transport.len_samples = 0;
            self.transport.playhead = 0;
        }
    }

    /// Starts or stops a track on a running transport (see `toggled_track`).
    fn handle_toggle_looper(&mut self, id: usize)
        requires
            old(self).wf(),
            id < NUM_LOOPERS,
        ensures
            final(self).wf(),
            final(self).loopers@ == old(self).loopers@.update(id as int, toggled_track(old(self).loopers@[id as int])),
            final(self).mixer@ == old(self).mixer@,
            final(self).transport == old(self).transport,
            final(self).switches == old(self).switches,
    {
        let l = self.loopers[id];
        let next = match l.state {
            LooperState::Playing => LooperTrack { state: LooperState::Overdubbing, ..l },
            LooperState::Overdubbing => LooperTrack { state: LooperState::Playing, ..l },
            LooperState::Empty => LooperTrack { pending_command: true, state: LooperState::Armed, ..l },
            _ => LooperTrack { pending_command: true, ..l },
        };
        self.loopers[id] = next;
    }

    /// Arms one track for recording the first loop, disarming any other armed track.
    fn arm_looper(&mut self, id: usize)
        requires
            old(self).wf(),
            id < NUM_LOOPERS,
        ensures
            final(self).wf(),
            final(self).loopers@ == armed_only(old(self).loopers@, id as int),
            final(self).mixer@ == old(self).mixer@,
            final(self).transport == old(self).transport,
            final(self).switches == old(self).switches,
    {
        let ghost orig = self.loopers@;
        let mut i: usize = 0;
        while i < NUM_LOOPERS
            invariant
                i <= NUM_LOOPERS,
                id < NUM_LOOPERS,
                orig.len() == NUM_LOOPERS,
                orig == old(self).loopers@,
                tracks_ok(orig),
                self.loopers@.len() == NUM_LOOPERS,
                self.mixer@ == old(self).mixer@,
                self.transport == old(self).transport,
                self.switches == old(self).switches,
                forall|k: int| 0 <= k < i ==> #[trigger] self.loopers@[k] == (if k != id && orig[k].state == LooperState::Armed {
                    LooperTrack { state: LooperState::Empty, ..orig[k] }
                } else {
                    orig[k]
                }),
                forall|k: int| i <= k < NUM_LOOPERS ==> #[trigger] self.loopers@[k] == orig[k],
            decreases NUM_LOOPERS - i,
        {
            if i != id && self.loopers[i].state == LooperState::Armed {
                let l = self.loopers[i];
                self.loopers[i] = LooperTrack { state: LooperState::Empty, ..l };
            }
            i = i + 1;
        }
        let l = self.loopers[id];
        self.loopers[id] = LooperTrack { state: LooperState::Armed, ..l };
        assert(self.loopers@ =~= armed_only(orig, id as int));
    }

    /// A press on a track's button. Before the transport has a length an empty
    /// track is armed; an armed track is cleared; otherwise, while the
    /// transport plays, the track is toggled (see `toggled_track`).
    pub fn looper_press(&mut self, id: usize)
        requires
            old(self).wf(),
            id < NUM_LOOPERS,
        ensures
            final(self).wf(),
            final(self).mixer@ == old(self).mixer@,
            final(self).switches == old(self).switches,
            ({
                let l = old(self).loopers@[id as int];
                let started = old(self).transport.len_samples > 0;
                let playing = old(self).transport.is_playing;
                if l.state == LooperState::Empty && !started {
                    &&& final(self).loopers@ == armed_only(old(self).loopers@, id as int)
                    &&& final(self).transport == old(self).transport
                } else if l.state == LooperState::Armed {
                    &&& final(self).loopers@ == old(self).loopers@.update(id as int, cleared_track(l))
                    &&& all_tracks_silent(final(self).loopers@) ==> final(self).transport == (TransportInfo {
                        len_samples: 0,
                        playhead: 0,
                        ..old(self).transport
                    })
                    &&& !all_tracks_silent(final(self).loopers@) ==> final(self).transport == old(self).transport
                } else if playing {
                    &&& final(self).loopers@ == old(self).loopers@.update(id as int, toggled_track(l))
                    &&& final(self).transport == old(self).transport
                } else {
                    &&& final(self).loopers@ == old(self).loopers@
                    &&& final(self).transport == old(self).transport
                }
            }),
    {
        let is_playing = self.transport.is_playing;
        let transport_has_started = self.transport.len_samples > 0;
        let state = self.loopers[id].state;
        match state {
            LooperState::Empty => {
                if !transport_has_started {
                    self.arm_looper(id);
                } else if is_playing {
                    self.handle_toggle_looper(id);
                }
            },
            LooperState::Armed => {
                self.clear_looper(id);
            },
            _ => {
                if is_playing {
                    self.handle_toggle_looper(id);
                }
            },
        }
    }

    /// Stops the transport and rewinds it and every track to the start.
    pub fn stop_transport(&mut self)
        requires
            old(self).wf(),
        ensures
            final(self).wf(),
            final(self).loopers@ == rewound(old(self).loopers@),
            final(self).transport == (TransportInfo {
                playhead: 0,
                is_playing: false,
                state: TransportState::Paused,
                ..old(self).transport
            }),
            final(self).mixer@ == old(self).mixer@,
            final(self).switches == old(self).switches,
    {
        self.transport.state = TransportState::Paused;
        self.transport.is_playing = false;
        self.transport.playhead = 0;
        let ghost orig = self.loopers@;
        let mut i: usize = 0;
        while i < self.loopers.len()
            invariant
                i <= self.loopers@.len(),
                self.loopers@.len() == orig.len(),
                orig == old(self).loopers@,
                self.mixer@ == old(self).mixer@,
                self.switches == old(self).switches,
                self.transport == (TransportInfo {
                    playhead: 0,
                    is_playing: false,
                    state: TransportState::Paused,
                    ..old(self).transport
                }),
                forall|k: int| 0 <= k < i ==> #[trigger] self.loopers@[k] == (LooperTrack { playhead: 0, ..orig[k] }),
                forall|k: int| i <= k < orig.len() ==> #[trigger] self.loopers@[k] == orig[k],
            decreases self.loopers@.len() - i,
        {
            let l = self.loopers[i];
            self.loopers[i] = LooperTrack { playhead: 0, ..l };
            i = i + 1;
        }
        assert(self.loopers@ =~= rewound(orig));
    }

    /// Starts the transport.
    pub fn play_transport(&mut self)
        requires
            old(self).wf(),
        ensures
            final(self).wf(),
            final(self).loopers@ == old(self).loopers@,
            final(self).transport == (TransportInfo {
                is_playing: true,
                state: TransportState::Playing,
                ..old(self).transport
            }),
            final(self).mixer@ == old(self).mixer@,
            final(self).switches == old(self).switches,
    {
        self.transport.state = TransportState::Playing;
        self.transport.is_playing = true;
    }

    /// Stops a playing transport (rewinding everything) or starts a stopped one.
    pub fn toggle_transport(&mut self)
        requires
            old(self).wf(),
        ensures
            final(self).wf(),
            old(self).transport.is_playing ==> final(self).loopers@ == rewound(old(self).loopers@)
                && final(self).transport == (TransportInfo {
                playhead: 0,
                is_playing: false,
                state: TransportState::Paused,
                ..old(self).transport
            }),
            !old(self).transport.is_playing ==> final(self).loopers@ == old(self).loopers@
                && final(self).transport == (TransportInfo {
                is_playing: true,
                state: TransportState::Playing,
                ..old(self).transport
            }),
            final(self).mixer@ == old(self).mixer@,
            final(self).switches == old(self).switches,
    {
        if self.transport.is_playing {
            self.stop_transport();
        } else {
            self.play_transport();
        }
    }

    /// Clears every track, zeroes the transport and resets the mixer switches;
    /// the transport then plays or pauses as asked.
    pub fn clear_all(&mut self, then_play: bool)
        requires
            old(self).wf(),
        ensures
            final(self).wf(),
            final(self).loopers@ == all_cleared(old(self).loopers@),
            final(self).transport == (TransportInfo {
                len_samples: 0,
                playhead: 0,
                is_playing: then_play,
                state: if then_play { TransportState::Playing } else { TransportState::Paused },
            }),
            final(self).mixer@ == default_mixer(),
            final(self).switches == old(self).switches,
    {
        self.transport.state = if then_play { TransportState::Playing } else { TransportState::Paused };
        self.transport.is_playing = then_play;
        self.transport.playhead = 0;
        self.transport.len_samples = 0;
        let ghost orig = self.loopers@;
        let mut i: usize = 0;
        while i < NUM_LOOPERS
            invariant
                i <= NUM_LOOPERS,
                self.wf(),
                orig.len() == NUM_LOOPERS,
                self.transport == (TransportInfo {
                    len_samples: 0,
                    playhead: 0,
                    is_playing: then_play,
                    state: if then_play { TransportState::Playing } else { TransportState::Paused },
                }),
                self.switches == old(self).switches,
                forall|k: int| 0 <= k < i ==> #[trigger] self.loopers@[k] == cleared_track(orig[k]),
                forall|k: int| i <= k < NUM_LOOPERS ==> #[trigger] self.loopers@[k] == orig[k],
            decreases NUM_LOOPERS - i,
        {
            self.clear_looper(i);
            i = i + 1;
        }
        assert(self.loopers@ =~= all_cleared(orig));
        self.set_mixer_defaults();
    }

    fn set_mixer_defaults(&mut self)
        requires
            old(self).wf(),
        ensures
            final(self).wf(),
            final(self).loopers@ == old(self).loopers@,
            final(self).transport == old(self).transport,
            final(self).switches == old(self).switches,
            final(self).mixer@ == default_mixer(),
    {
        let mut i: usize = 0;
        while i < NUM_LOOPERS
            invariant
                i <= NUM_LOOPERS,
                self.mixer@.len() == NUM_LOOPERS,
                self.loopers@ == old(self).loopers@,
                self.transport == old(self).transport,
                self.switches == old(self).switches,
                forall|k: int| 0 <= k < i ==> #[trigger] self.mixer@[k] == (MixerTrack { is_muted: false, is_soloed: false }),
            decreases NUM_LOOPERS - i,
        {
            self.mixer[i] = MixerTrack { is_muted: false, is_soloed: false };
            i = i + 1;
        }
        assert(self.mixer@ =~= default_mixer());
    }

    /// Sets the transport length (used when a session is restored).
    pub fn set_transport_len(&mut self, len: usize)
        requires
            old(self).wf(),
        ensures
            final(self).wf(),
            final(self).loopers@ == old(self).loopers@,
            final(self).transport == (TransportInfo { len_samples: len, ..old(self).transport }),
            final(self).mixer@ == old(self).mixer@,
            final(self).switches == old(self).switches,
    {
        self.transport.len_samples = len;
    }

    /// Places loaded audio of the given length on a track, which starts playing
    /// it as a one-cycle loop. An index past the last track changes nothing.
    pub fn load_loop(&mut self, looper_index: usize, audio_len: usize) -> (loaded: bool)
        requires
            old(self).wf(),
        ensures
            final(self).wf(),
            loaded == (looper_index < NUM_LOOPERS),
            loaded ==> final(self).loopers@ == old(self).loopers@.update(looper_index as int, LooperTrack {
                audio_len,
                playhead: 0,
                state: LooperState::Playing,
                length_in_cycles: 1,
                ..old(self).loopers@[looper_index as int]
            }),
            !loaded ==> final(self).loopers@ == old(self).loopers@,
            final(self).transport == old(self).transport,
            final(self).mixer@ == old(self).mixer@,
            final(self).switches == old(self).switches,
    {
        if looper_index < self.loopers.len() {
            let l = self.loopers[looper_index];
            self.loopers[looper_index] = LooperTrack {
                audio_len,
                playhead: 0,
                state: LooperState::Playing,
                length_in_cycles: 1,
                ..l
            };
            true
        } else {
            false
        }
    }

    /// Flips the mute switch of one channel; an index past the last channel changes nothing.
    pub fn toggle_mixer_mute(&mut self, track_index: usize)
        requires
            old(self).wf(),
        ensures
            final(self).wf(),
            track_index < NUM_LOOPERS ==> final(self).mixer@ == old(self).mixer@.update(track_index as int, MixerTrack {
                is_muted: !old(self).mixer@[track_index as int].is_muted,
                ..old(self).mixer@[track_index as int]
            }),
            track_index >= NUM_LOOPERS ==> final(self).mixer@ == old(self).mixer@,
            final(self).loopers@ == old(self).loopers@,
            final(self).transport == old(self).transport,
            final(self).switches == old(self).switches,
    {
        if track_index < self.mixer.len() {
            let m = self.mixer[track_index];
            self.mixer[track_index] = MixerTrack { is_muted: !m.is_muted, ..m };
        }
    }

    /// Flips the solo switch of one channel; an index past the last channel changes nothing.
    pub fn toggle_mixer_solo(&mut self, track_index: usize)
        requires
            old(self).wf(),
        ensures
            final(self).wf(),
            track_index < NUM_LOOPERS ==> final(self).mixer@ == old(self).mixer@.update(track_index as int, MixerTrack {
                is_soloed: !old(self).mixer@[track_index as int].is_soloed,
                ..old(self).mixer@[track_index as int]
            }),
            track_index >= NUM_LOOPERS ==> final(self).mixer@ == old(self).mixer@,
            final(self).loopers@ == old(self).loopers@,
            final(self).transport == old(self).transport,
            final(self).switches == old(self).switches,
    {
        if track_index < self.mixer.len() {
            let m = self.mixer[track_index];
            self.mixer[track_index] = MixerTrack { is_soloed: !m.is_soloed, ..m };
        }
    }

    /// Whether every channel is muted.
    pub fn is_all_muted(&self) -> (r: bool)
        ensures
            r == all_muted(self.mixer@),
    {
        let mut i: usize = 0;
        while i < self.mixer.len()
            invariant
                i <= self.mixer@.len(),
                forall|k: int| 0 <= k < i ==> (#[trigger] self.mixer@[k]).is_muted,
            decreases self.mixer@.len() - i,
        {
            if !self.mixer[i].is_muted {
                return false;
            }
            i = i + 1;
        }
        true
    }

    /// Mutes every channel, or unmutes them all when all are muted already.
    pub fn toggle_mute_all(&mut self)
        requires
            old(self).wf(),
        ensures
            final(self).wf(),
            final(self).mixer@ == mute_all_toggled(old(self).mixer@),
            final(self).loopers@ == old(self).loopers@,
            final(self).transport == old(self).transport,
            final(self).switches == old(self).switches,
    {
        let should_mute_all = !self.is_all_muted();
        let ghost orig = self.mixer@;
        let mut i: usize = 0;
        while i < self.mixer.len()
            invariant
                i <= self.mixer@.len(),
                self.mixer@.len() == orig.len(),
                orig == old(self).mixer@,
                should_mute_all == !all_muted(orig),
                self.loopers@ == old(self).loopers@,
                self.transport == old(self).transport,
                self.switches == old(self).switches,
                forall|k: int| 0 <= k < i ==> #[trigger] self.mixer@[k] == (MixerTrack { is_muted: should_mute_all, ..orig[k] }),
                forall|k: int| i <= k < orig.len() ==> #[trigger] self.mixer@[k] == orig[k],
            decreases self.mixer@.len() - i,
        {
            let m = self.mixer[i];
            self.mixer[i] = MixerTrack { is_muted: should_mute_all, ..m };
            i = i + 1;
        }
        assert(self.mixer@ =~= mute_all_toggled(orig));
    }

    /// Replaces all mixer switches at once.
    pub fn set_mixer(&mut self, mixer: Vec<MixerTrack>)
        requires
            old(self).wf(),
            mixer@.len() == NUM_LOOPERS,
        ensures
            final(self).wf(),
            final(self).mixer@ == mixer@,
            final(self).loopers@ == old(self).loopers@,
            final(self).transport == old(self).transport,
            final(self).switches == old(self).switches,
    {
        self.mixer = mixer;
    }

    /// Whether a channel is heard: soloed channels win over all others; without
    /// any solo, every unmuted channel is heard.
    pub fn is_track_audible(&self, track_index: usize) -> (r: bool)
        requires
            track_index < self.mixer@.len(),
        ensures
            r == channel_audible(self.mixer@, track_index as int),
    {
        let mut any_soloed = false;
        let mut i: usize = 0;
        while i < self.mixer.len()
            invariant
                i <= self.mixer@.len(),
                any_soloed == exists|k: int| 0 <= k < i && (#[trigger] self.mixer@[k]).is_soloed,
            decreases self.mixer@.len() - i,
        {
            if self.mixer[i].is_soloed {
                any_soloed = true;
            }
            i = i + 1;
        }
        if any_soloed {
            self.mixer[track_index].is_soloed
        } else {
            !self.mixer[track_index].is_muted
        }
    }

    /// Switches the synth on or off; switching it on switches the sampler off.
    pub fn toggle_synth(&mut self)
        requires
            old(self).wf(),
        ensures
            final(self).wf(),
            final(self).switches == synth_toggled(old(self).switches),
            final(self).loopers@ == old(self).loopers@,
            final(self).transport == old(self).transport,
            final(self).mixer@ == old(self).mixer@,
    {
        let is_active = self.switches.synth_is_active;
        self.switches.synth_is_active = !is_active;
        if !is_active {
            self.switches.sampler_is_active = false;
        }
    }

    /// Switches the sampler on or off; switching it on switches the synth off.
    pub fn toggle_sampler(&mut self)
        requires
            old(self).wf(),
        ensures
            final(self).wf(),
            final(self).switches == sampler_toggled(old(self).switches),
            final(self).loopers@ == old(self).loopers@,
            final(self).transport == old(self).transport,
            final(self).mixer@ == old(self).mixer@,
    {
        let is_active = self.switches.sampler_is_active;
        self.switches.sampler_is_active = !is_active;
        if !is_active {
            self.switches.synth_is_active = false;
        }
    }

    /// Switches the synth on or off without touching the sampler.
    pub fn set_synth_active(&mut self, active: bool)
        requires
            old(self).wf(),
        ensures
            final(self).wf(),
            final(self).switches == (Switches { synth_is_active: active, ..old(self).switches }),
            final(self).loopers@ == old(self).loopers@,
            final(self).transport == old(self).transport,
            final(self).mixer@ == old(self).mixer@,
    {
        self.switches.synth_is_active = active;
    }

    /// Switches the sampler on or off without touching the synth.
    pub fn set_sampler_active(&mut self, active: bool)
        requires
            old(self).wf(),
        ensures
            final(self).wf(),
            final(self).switches == (Switches { sampler_is_active: active, ..old(self).switches }),
            final(self).loopers@ == old(self).loopers@,
            final(self).transport == old(self).transport,
            final(self).mixer@ == old(self).mixer@,
    {
        self.switches.sampler_is_active = active;
    }

    /// Arms or disarms the audio input.
    pub fn toggle_audio_input_arm(&mut self)
        requires
            old(self).wf(),
        ensures
            final(self).wf(),
            final(self).switches == (Switches { audio_input_is_armed: !old(self).switches.audio_input_is_armed, ..old(self).switches }),
            final(self).loopers@ == old(self).loopers@,
            final(self).transport == old(self).transport,
            final(self).mixer@ == old(self).mixer@,
    {
        self.switches.audio_input_is_armed = !self.switches.audio_input_is_armed;
    }

    /// Switches monitoring of the audio input on or off.
    pub fn toggle_audio_input_monitoring(&mut self)
        requires
            old(self).wf(),
        ensures
            final(self).wf(),
            final(self).switches == (Switches { audio_input_is_monitored: !old(self).switches.audio_input_is_monitored, ..old(self).switches }),
            final(self).loopers@ == old(self).loopers@,
            final(self).transport == old(self).transport,
            final(self).mixer@ == old(self).mixer@,
    {
        self.switches.audio_input_is_monitored = !self.switches.audio_input_is_monitored;
    }

    /// Switches the output limiter on or off.
    pub fn toggle_limiter(&mut self)
        requires
            old(self).wf(),
        ensures
            final(self).wf(),
            final(self).switches == (Switches { limiter_is_active: !old(self).switches.limiter_is_active, ..old(self).switches }),
            final(self).loopers@ == old(self).loopers@,
            final(self).transport == old(self).transport,
            final(self).mixer@ == old(self).mixer@,
    {
        self.switches.limiter_is_active = !self.switches.limiter_is_active;
    }

    /// Asks the user interface to start or stop recording the output.
    pub fn request_record_toggle(&mut self)
        requires
            old(self).wf(),
        ensures
            final(self).wf(),
            final(self).switches == (Switches { should_toggle_record: true, ..old(self).switches }),
            final(self).loopers@ == old(self).loopers@,
            final(self).transport == old(self).transport,
            final(self).mixer@ == old(self).mixer@,
    {
        self.switches.should_toggle_record = true;
    }

    /// Replaces the instrument, input, limiter and record-request switches.
    pub fn set_switches(&mut self, switches: Switches)
        requires
            old(self).wf(),
        ensures
            final(self).wf(),
            final(self).switches == switches,
            final(self).loopers@ == old(self).loopers@,
            final(self).transport == old(self).transport,
            final(self).mixer@ == old(self).mixer@,
    {
        self.switches = switches;
    }

    /// Copies the stored transport length and position for one audio block.
    pub fn begin_block(&self) -> (cursor: BlockCursor)
        ensures
            cursor == (BlockCursor {
                transport_len: self.transport.len_samples,
                transport_playhead: self.transport.playhead,
            }),
    {
        BlockCursor { transport_len: self.transport.len_samples, transport_playhead: self.transport.playhead }
    }

    /// The cycle boundary: when the block's transport has a length and its
    /// position is at zero, every track goes through `wrapped_track`, and when
    /// a cleared track leaves no audio anywhere the stored transport is reset.
    /// Returns, per track, whether its waveform overview must be recomputed.
    pub fn on_cycle_wrap(&mut self, cursor: &BlockCursor) -> (refresh: Vec<bool>)
        requires
            old(self).wf(),
            cursor.transport_len > 0 && cursor.transport_playhead == 0 ==> forall|i: int|
                0 <= i < NUM_LOOPERS ==> wrap_fits(#[trigger] old(self).loopers@[i], cursor.transport_len),
        ensures
            final(self).wf(),
            refresh@.len() == NUM_LOOPERS,
            final(self).mixer@ == old(self).mixer@,
            final(self).switches == old(self).switches,
            !(cursor.transport_len > 0 && cursor.transport_playhead == 0) ==> {
                &&& final(self).loopers@ == old(self).loopers@
                &&& final(self).transport == old(self).transport
                &&& forall|i: int| 0 <= i < NUM_LOOPERS ==> !(#[trigger] refresh@[i])
            },
            cursor.transport_len > 0 && cursor.transport_playhead == 0 ==> {
                &&& final(self).loopers@ == Seq::new(
                    NUM_LOOPERS as nat,
                    |i: int| wrapped_track(old(self).loopers@[i], cursor.transport_len),
                )
                &&& forall|i: int| 0 <= i < NUM_LOOPERS ==> #[trigger] refresh@[i] == wrap_refreshes(old(self).loopers@[i])
                &&& if (exists|i: int| 0 <= i < NUM_LOOPERS && stop_clears(#[trigger] wrap_pending(old(self).loopers@[i]), cursor.transport_len))
                    && all_tracks_silent(final(self).loopers@) {
                    final(self).transport == (TransportInfo { len_samples: 0, playhead: 0, ..old(self).transport })
                } else {
                    final(self).transport == old(self).transport
                }
            },
    {
        let mut refresh: Vec<bool> = Vec::new();
        let tl = cursor.transport_len;
        if !(tl > 0 && cursor.transport_playhead == 0) {
            let mut k: usize = 0;
            while k < NUM_LOOPERS
                invariant
                    k <= NUM_LOOPERS,
                    refresh@.len() == k,
                    forall|i: int| 0 <= i < k ==> !(#[trigger] refresh@[i]),
                decreases NUM_LOOPERS - k,
            {
                refresh.push(false);
                k = k + 1;
            }
            return refresh;
        }
        let ghost orig = self.loopers@;
        let mut any_cleared = false;
        let mut i: usize = 0;
        while i < NUM_LOOPERS
            invariant
                i <= NUM_LOOPERS,
                tl == cursor.transport_len,
                tl > 0,
                orig == old(self).loopers@,
                orig.len() == NUM_LOOPERS,
                self.loopers@.len() == NUM_LOOPERS,
                tracks_ok(orig),
                forall|j: int| 0 <= j < NUM_LOOPERS ==> wrap_fits(#[trigger] orig[j], tl),
                refresh@.len() == i,
                self.mixer@ == old(self).mixer@,
                self.switches == old(self).switches,
                self.transport == old(self).transport,
                any_cleared == exists|j: int| 0 <= j < i && stop_clears(#[trigger] wrap_pending(orig[j]), tl),
                forall|j: int| 0 <= j < i ==> #[trigger] self.loopers@[j] == wrapped_track(orig[j], tl),
                forall|j: int| 0 <= j < i ==> #[trigger] refresh@[j] == wrap_refreshes(orig[j]),
                forall|j: int| i <= j < NUM_LOOPERS ==> #[trigger] self.loopers@[j] == orig[j],
            decreases NUM_LOOPERS - i,
        {
            let l = self.loopers[i];
            assert(wrap_fits(orig[i as int], tl));
            let was_overdubbing = l.state == LooperState::Overdubbing;
            // queued press
            let a = if l.pending_command {
                let m = match l.state {
                    LooperState::Recording => LooperTrack { stop_is_queued: true, ..l },
                    LooperState::Empty | LooperState::Armed => LooperTrack {
                        audio_len: 0,
                        playhead: 0,
                        cycles_recorded: 0,
                        stop_is_queued: false,
                        state: LooperState::Recording,
                        length_in_cycles: 0,
                        ..l
                    },
                    LooperState::Playing => LooperTrack { state: LooperState::Overdubbing, ..l },
                    LooperState::Overdubbing => LooperTrack { state: LooperState::Playing, ..l },
                    LooperState::Stopped => LooperTrack { playhead: 0, state: LooperState::Playing, ..l },
                };
                LooperTrack { pending_command: false, ..m }
            } else {
                l
            };
            assert(a == wrap_pending(l));
            // queued stop
            let mut cleared_here = false;
            let b = if a.stop_is_queued {
                let len = tl * (a.cycles_recorded as usize);
                if len > 0 {
                    LooperTrack {
                        audio_len: len,
                        state: LooperState::Playing,
                        playhead: 0,
                        length_in_cycles: a.cycles_recorded,
                        stop_is_queued: false,
                        ..a
                    }
                } else {
                    cleared_here = true;
                    LooperTrack {
                        state: LooperState::Empty,
                        audio_len: 0,
                        pending_command: false,
                        stop_is_queued: false,
                        cycles_recorded: 0,
                        playhead: 0,
                        length_in_cycles: 0,
                        ..a
                    }
                }
            } else {
                a
            };
            assert(b == wrap_stop(a, tl));
            assert(cleared_here == stop_clears(a, tl));
            // recording goes on
            let c = if b.state == LooperState::Recording {
                LooperTrack { cycles_recorded: b.cycles_recorded + 1, ..b }
            } else {
                b
            };
            self.loopers[i] = c;
            refresh.push(was_overdubbing || a.stop_is_queued);
            if cleared_here {
                any_cleared = true;
            }
            i = i + 1;
        }
        assert(self.loopers@ =~= Seq::new(NUM_LOOPERS as nat, |j: int| wrapped_track(orig[j], tl)));
        assert forall|j: int| 0 <= j < NUM_LOOPERS implies track_ok(#[trigger] self.loopers@[j]) by {
            assert(track_ok(orig[j]));
        }
        if any_cleared && self.all_silent() {
            self.transport.len_samples = 0;
            self.transport.playhead = 0;
        }
        refresh
    }

    /// The track whose queued press ends the recording of the first loop: the
    /// first recording track with a queued press, while the block's transport
    /// has no length yet and that track holds audio.
    pub fn first_loop_candidate(&self, cursor: &BlockCursor) -> (r: Option<usize>)
        requires
            self.wf(),
        ensures
            r matches Some(id) ==> {
                &&& cursor.transport_len == 0
                &&& is_first_loop_candidate(self.loopers@, id as int)
                &&& self.loopers@[id as int].audio_len > 0
            },
            r is None ==> cursor.transport_len != 0 || forall|id: int|
                is_first_loop_candidate(self.loopers@, id) ==> #[trigger] self.loopers@[id].audio_len == 0,
    {
        if cursor.transport_len != 0 {
            return None;
        }
        let mut i: usize = 0;
        while i < NUM_LOOPERS
            invariant
                i <= NUM_LOOPERS,
                self.loopers@.len() == NUM_LOOPERS,
                cursor.transport_len == 0,
                forall|k: int| 0 <= k < i ==> !((#[trigger] self.loopers@[k]).pending_command
                    && self.loopers@[k].state == LooperState::Recording),
            decreases NUM_LOOPERS - i,
        {
            let l = self.loopers[i];
            if l.pending_command && l.state == LooperState::Recording {
                assert(is_first_loop_candidate(self.loopers@, i as int));
                if l.audio_len > 0 {
                    return Some(i);
                } else {
                    assert forall|id: int| is_first_loop_candidate(self.loopers@, id) implies #[trigger] self.loopers@[id].audio_len == 0 by {
                        if id < i {
                        } else if id > i {
                            assert(!(self.loopers@[i as int].pending_command && self.loopers@[i as int].state == LooperState::Recording));
                        }
                    }
                    return None;
                }
            }
            i = i + 1;
        }
        None
    }

    /// The first loop is established: the track's recording becomes `new_len`
    /// samples long (the caller may have rounded it to a whole tempo) and sets
    /// the transport length, in the store and in the block; the track plays it
    /// as a one-cycle loop.
    pub fn establish_first_loop(&mut self, cursor: &mut BlockCursor, id: usize, new_len: usize)
        requires
            old(self).wf(),
            id < NUM_LOOPERS,
            new_len > 0,
        ensures
            final(self).wf(),
            final(self).loopers@ == old(self).loopers@.update(id as int, LooperTrack {
                audio_len: new_len,
                state: LooperState::Playing,
                playhead: 0,
                cycles_recorded: 1,
                length_in_cycles: 1,
                pending_command: false,
                ..old(self).loopers@[id as int]
            }),
            final(self).transport == (TransportInfo { len_samples: new_len, ..old(self).transport }),
            *final(cursor) == (BlockCursor { transport_len: new_len, ..*old(cursor) }),
            final(self).mixer@ == old(self).mixer@,
            final(self).switches == old(self).switches,
    {
        self.transport.len_samples = new_len;
        cursor.transport_len = new_len;
        let l = self.loopers[id];
        self.loopers[id] = LooperTrack {
            audio_len: new_len,
            state: LooperState::Playing,
            playhead: 0,
            cycles_recorded: 1,
            length_in_cycles: 1,
            pending_command: false,
            ..l
        };
    }

    /// One sample of track processing (see `stepped_track`). The caller reads
    /// each heard track at its playhead before this call, and appends the
    /// recorded sample to each track whose audio grew.
    pub fn step_loopers(&mut self, cursor: &BlockCursor, input_loud: bool)
        requires
            old(self).wf(),
            forall|i: int| 0 <= i < NUM_LOOPERS ==> step_fits(
                #[trigger] old(self).loopers@[i],
                old(self).transport.state == TransportState::Playing,
            ),
        ensures
            final(self).wf(),
            final(self).loopers@ == Seq::new(
                NUM_LOOPERS as nat,
                |i: int| stepped_track(
                    old(self).loopers@[i],
                    old(self).transport.state == TransportState::Playing,
                    cursor.transport_len,
                    input_loud,
                ),
            ),
            final(self).transport == old(self).transport,
            final(self).mixer@ == old(self).mixer@,
            final(self).switches == old(self).switches,
    {
        let playing = self.transport.state == TransportState::Playing;
        let tl = cursor.transport_len;
        let ghost orig = self.loopers@;
        let mut i: usize = 0;
        while i < NUM_LOOPERS
            invariant
                i <= NUM_LOOPERS,
                orig == old(self).loopers@,
                orig.len() == NUM_LOOPERS,
                self.loopers@.len() == NUM_LOOPERS,
                tracks_ok(orig),
                playing == (old(self).transport.state == TransportState::Playing),
                tl == cursor.transport_len,
                forall|j: int| 0 <= j < NUM_LOOPERS ==> step_fits(#[trigger] orig[j], playing),
                self.transport == old(self).transport,
                self.mixer@ == old(self).mixer@,
                self.switches == old(self).switches,
                forall|j: int| 0 <= j < i ==> #[trigger] self.loopers@[j] == stepped_track(orig[j], playing, tl, input_loud),
                forall|j: int| i <= j < NUM_LOOPERS ==> #[trigger] self.loopers@[j] == orig[j],
            decreases NUM_LOOPERS - i,
        {
            let l = self.loopers[i];
            assert(step_fits(orig[i as int], playing));
            assert(track_ok(orig[i as int]));
            let next = match l.state {
                LooperState::Armed => if playing && tl == 0 && input_loud {
                    LooperTrack { state: LooperState::Recording, cycles_recorded: 1, ..l }
                } else {
                    l
                },
                LooperState::Recording => if playing {
                    LooperTrack {
                        audio_len: l.audio_len + 1,
                        samples_since_waveform_update: l.samples_since_waveform_update + 1,
                        ..l
                    }
                } else {
                    l
                },
                LooperState::Playing | LooperState::Overdubbing => if l.audio_len > 0 {
                    let counted = if l.state == LooperState::Overdubbing && playing {
                        l.samples_since_waveform_update + 1
                    } else {
                        l.samples_since_waveform_update
                    };
                    let head = if playing { (l.playhead + 1) % l.audio_len } else { l.playhead };
                    LooperTrack { samples_since_waveform_update: counted, playhead: head, ..l }
                } else {
                    l
                },
                _ => l,
            };
            self.loopers[i] = next;
            i = i + 1;
        }
        assert(self.loopers@ =~= Seq::new(
            NUM_LOOPERS as nat,
            |j: int| stepped_track(orig[j], playing, tl, input_loud),
        ));
        assert forall|j: int| 0 <= j < NUM_LOOPERS implies track_ok(#[trigger] self.loopers@[j]) by {
            assert(track_ok(orig[j]));
        }
    }

    /// Advances the block's transport position by one sample while the
    /// transport plays and has a length.
    pub fn advance_transport(&self, cursor: &mut BlockCursor)
        requires
            old(cursor).transport_len > 0 ==> old(cursor).transport_playhead < usize::MAX,
        ensures
            final(cursor).transport_len == old(cursor).transport_len,
            final(cursor).transport_playhead == if old(cursor).transport_len > 0
                && self.transport.state == TransportState::Playing {
                ((old(cursor).transport_playhead + 1) % (old(cursor).transport_len as int)) as usize
            } else {
                old(cursor).transport_playhead
            },
    {
        if cursor.transport_len > 0 && self.transport.state == TransportState::Playing {
            cursor.transport_playhead = (cursor.transport_playhead + 1) % cursor.transport_len;
        }
    }

    /// One sample of the audio block, in the engine's order: the cycle
    /// boundary, when the sample starts a cycle; the first-loop check, which
    /// makes the first recording track with a queued press and audio a loop
    /// of `first_loop_len` samples (its recorded length, or that length
    /// rounded to a whole tempo by the caller) and gives the transport that
    /// length; the tracks' processing of the sample; and the advance of the
    /// block's position. Returns, per track, whether the cycle boundary asks
    /// for its waveform overview to be recomputed.
    pub fn process_sample(&mut self, cursor: &mut BlockCursor, input_loud: bool, first_loop_len: usize) -> (refresh: Vec<bool>)
        requires
            old(self).wf(),
            sample_fits(old(self).loopers@, old(self).transport, *old(cursor), first_loop_len),
        ensures
            final(self).wf(),
            ({
                let (e, te, ce) = before_step(old(self).loopers@, old(self).transport, *old(cursor), first_loop_len);
                let playing = old(self).transport.state == TransportState::Playing;
                &&& final(self).loopers@ == Seq::new(
                    NUM_LOOPERS as nat,
                    |i: int| stepped_track(e[i], playing, ce.transport_len, input_loud),
                )
                &&& final(self).transport == te
                &&& *final(cursor) == advanced_cursor(ce, playing)
            }),
            refresh@.len() == NUM_LOOPERS,
            forall|i: int| 0 <= i < NUM_LOOPERS ==> #[trigger] refresh@[i] == (at_cycle_start(*old(cursor))
                && wrap_refreshes(old(self).loopers@[i])),
            final(self).mixer@ == old(self).mixer@,
            final(self).switches == old(self).switches,
    {
        let ghost s0 = self.loopers@;
        let ghost c0 = *cursor;
        let ghost t0 = self.transport;
        let refresh = self.on_cycle_wrap(cursor);
        proof {
            if at_cycle_start(c0) {
                assert(self.loopers@ =~= tracks_after_wrap(s0, c0));
            }
        }
        match self.first_loop_candidate(cursor) {
            Some(id) => {
                proof {
                    let w = self.loopers@;
                    assert(first_loop_due(w, c0) == Some(id as int)) by {
                        let j = choose|j: int| is_first_loop_candidate(w, j) && #[trigger] w[j].audio_len > 0;
                        lemma_first_loop_candidate_unique(w, j, id as int);
                    }
                }
                self.establish_first_loop(cursor, id, first_loop_len);
            },
            None => {
                proof {
                    let w = self.loopers@;
                    if c0.transport_len == 0 && exists|j: int| is_first_loop_candidate(w, j) && #[trigger] w[j].audio_len > 0 {
                        let j = choose|j: int| is_first_loop_candidate(w, j) && #[trigger] w[j].audio_len > 0;
                    }
                }
            },
        }
        proof {
            let (e, te, ce) = before_step(s0, t0, c0, first_loop_len);
            assert(self.loopers@ == e);
            assert(self.transport == te);
            assert(*cursor == ce);
        }
        self.step_loopers(cursor, input_loud);
        self.advance_transport(cursor);
        refresh
    }

    /// Runs samples `from..` of a block (see `process_sample`) until the end
    /// of `loud` or the first sample that establishes the first loop, which is
    /// left to the caller with the loop's length. Returns where it stopped and,
    /// per track, whether a cycle boundary on the way asks for its waveform
    /// overview to be recomputed.
    pub fn process_samples(&mut self, cursor: &mut BlockCursor, loud: &Vec<bool>, from: usize) -> (r: (usize, Vec<bool>))
        requires
            old(self).wf(),
            from <= loud@.len(),
            forall|k: nat| from + k < loud@.len()
                && (forall|j: nat| j <= k ==> !first_loop_due_at(#[trigger] samples_run(
                    (old(self).loopers@, old(self).transport, *old(cursor)),
                    loud@.subrange(from as int, loud@.len() as int),
                    j,
                )))
                ==> {
                    let p = #[trigger] samples_run(
                        (old(self).loopers@, old(self).transport, *old(cursor)),
                        loud@.subrange(from as int, loud@.len() as int),
                        k,
                    );
                    sample_fits(p.0, p.1, p.2, 0)
                },
        ensures
            final(self).wf(),
            ({
                let st = (old(self).loopers@, old(self).transport, *old(cursor));
                let rest = loud@.subrange(from as int, loud@.len() as int);
                let n = (r.0 - from) as nat;
                &&& from <= r.0 <= loud@.len()
                &&& forall|j: nat| j < n ==> !first_loop_due_at(#[trigger] samples_run(st, rest, j))
                &&& r.0 < loud@.len() ==> first_loop_due_at(samples_run(st, rest, n))
                &&& (final(self).loopers@, final(self).transport, *final(cursor)) == samples_run(st, rest, n)
                &&& r.1@.len() == NUM_LOOPERS
                &&& forall|i: int| 0 <= i < NUM_LOOPERS ==> #[trigger] r.1@[i] == refreshed_in_run(st, rest, n, i)
            }),
            final(self).mixer@ == old(self).mixer@,
            final(self).switches == old(self).switches,
    {
        let ghost st = (self.loopers@, self.transport, *cursor);
        let ghost rest = loud@.subrange(from as int, loud@.len() as int);
        let mut refreshed: Vec<bool> = Vec::new();
        let mut k: usize = 0;
        while k < NUM_LOOPERS
            invariant
                k <= NUM_LOOPERS,
                refreshed@.len() == k,
                forall|i: int| 0 <= i < k ==> !(#[trigger] refreshed@[i]),
            decreases NUM_LOOPERS - k,
        {
            refreshed.push(false);
            k = k + 1;
        }
        let mut i: usize = from;
        while i < loud.len()
            invariant_except_break
                forall|j: nat| j < i - from ==> !first_loop_due_at(#[trigger] samples_run(st, rest, j)),
            invariant
                from <= i <= loud@.len(),
                self.wf(),
                rest == loud@.subrange(from as int, loud@.len() as int),
                (self.loopers@, self.transport, *cursor) == samples_run(st, rest, (i - from) as nat),
                self.mixer@ == old(self).mixer@,
                self.switches == old(self).switches,
                st == (old(self).loopers@, old(self).transport, *old(cursor)),
                forall|k: nat| from + k < loud@.len()
                    && (forall|j: nat| j <= k ==> !first_loop_due_at(#[trigger] samples_run(st, rest, j)))
                    ==> {
                        let p = #[trigger] samples_run(st, rest, k);
                        sample_fits(p.0, p.1, p.2, 0)
                    },
                refreshed@.len() == NUM_LOOPERS,
                forall|t: int| 0 <= t < NUM_LOOPERS ==> #[trigger] refreshed@[t] == refreshed_in_run(st, rest, (i - from) as nat, t),
            ensures
                forall|j: nat| j < i - from ==> !first_loop_due_at(#[trigger] samples_run(st, rest, j)),
                i < loud@.len() ==> first_loop_due_at(samples_run(st, rest, (i - from) as nat)),
            decreases loud@.len() - i,
        {
            let ghost n = (i - from) as nat;
            let ghost here = samples_run(st, rest, n);
            if self.first_loop_candidate(cursor).is_some() {
                proof {
                    assert(at_cycle_start(*cursor) ==> cursor.transport_len > 0);
                    assert(tracks_after_wrap(self.loopers@, *cursor) == self.loopers@);
                    assert(first_loop_due_at(here)) by {
                        let id = choose|id: int| is_first_loop_candidate(self.loopers@, id) && #[trigger] self.loopers@[id].audio_len > 0;
                    }
                }
                break;
            }
            proof {
                if cursor.transport_len == 0 {
                    assert(tracks_after_wrap(self.loopers@, *cursor) == self.loopers@);
                }
                assert(!first_loop_due_at(here));
                assert forall|j: nat| j <= n implies !first_loop_due_at(#[trigger] samples_run(st, rest, j)) by {
                    if j < n {
                    }
                }
                assert(rest[n as int] == loud@[i as int]);
            }
            let wrap = self.process_sample(cursor, loud[i], 0);
            let ghost before = refreshed@;
            let mut t: usize = 0;
            while t < NUM_LOOPERS
                invariant
                    t <= NUM_LOOPERS,
                    refreshed@.len() == NUM_LOOPERS,
                    wrap@.len() == NUM_LOOPERS,
                    forall|q: int| 0 <= q < t ==> #[trigger] refreshed@[q] == (before[q] || wrap@[q]),
                    forall|q: int| t <= q < NUM_LOOPERS ==> #[trigger] refreshed@[q] == before[q],
                decreases NUM_LOOPERS - t,
            {
                if wrap[t] {
                    refreshed.set(t, true);
                }
                t = t + 1;
            }
            proof {
                assert(samples_run(st, rest, n + 1) == after_sample(here.0, here.1, here.2, rest[n as int], 0));
                assert forall|q: int| 0 <= q < NUM_LOOPERS implies #[trigger] refreshed@[q] == refreshed_in_run(st, rest, n + 1, q) by {
                    if refreshed_in_run(st, rest, n + 1, q) && !refreshed_in_run(st, rest, n, q) {
                        let j = choose|j: int| 0 <= j < n + 1 && at_cycle_start(#[trigger] samples_run(st, rest, j as nat).2)
                            && wrap_refreshes(samples_run(st, rest, j as nat).0[q]);
                        assert(j == n);
                    }
                    if wrap@[q] {
                        assert(at_cycle_start(samples_run(st, rest, n).2) && wrap_refreshes(samples_run(st, rest, n).0[q]));
                    }
                    if refreshed_in_run(st, rest, n, q) {
                        let j = choose|j: int| 0 <= j < n && at_cycle_start(#[trigger] samples_run(st, rest, j as nat).2)
                            && wrap_refreshes(samples_run(st, rest, j as nat).0[q]);
                        assert(0 <= j < n + 1);
                    }
                }
            }
            i = i + 1;
        }
        (i, refreshed)
    }

    /// Ends an audio block: stores the block's transport position and returns,
    /// per track, whether enough new samples were written to refresh its
    /// waveform overview (those tracks' counters restart from zero).
    pub fn end_block(&mut self, cursor: &BlockCursor) -> (refresh: Vec<bool>)
        requires
            old(self).wf(),
        ensures
            final(self).wf(),
            refresh@.len() == NUM_LOOPERS,
            forall|i: int| 0 <= i < NUM_LOOPERS ==> #[trigger] refresh@[i] == (old(self).loopers@[i].samples_since_waveform_update
                >= waveform_refresh_interval()),
            final(self).loopers@ == Seq::new(
                NUM_LOOPERS as nat,
                |i: int| if old(self).loopers@[i].samples_since_waveform_update >= waveform_refresh_interval() {
                    LooperTrack { samples_since_waveform_update: 0, ..old(self).loopers@[i] }
                } else {
                    old(self).loopers@[i]
                },
            ),
            final(self).transport == (TransportInfo { playhead: cursor.transport_playhead, ..old(self).transport }),
            final(self).mixer@ == old(self).mixer@,
            final(self).switches == old(self).switches,
    {
        let mut refresh: Vec<bool> = Vec::new();
        let ghost orig = self.loopers@;
        let mut i: usize = 0;
        while i < NUM_LOOPERS
            invariant
                i <= NUM_LOOPERS,
                orig == old(self).loopers@,
                orig.len() == NUM_LOOPERS,
                self.loopers@.len() == NUM_LOOPERS,
                refresh@.len() == i,
                self.transport == old(self).transport,
                self.mixer@ == old(self).mixer@,
                self.switches == old(self).switches,
                forall|j: int| 0 <= j < i ==> #[trigger] refresh@[j] == (orig[j].samples_since_waveform_update >= 256),
                forall|j: int| 0 <= j < i ==> #[trigger] self.loopers@[j] == if orig[j].samples_since_waveform_update >= 256 {
                    LooperTrack { samples_since_waveform_update: 0, ..orig[j] }
                } else {
                    orig[j]
                },
                forall|j: int| i <= j < NUM_LOOPERS ==> #[trigger] self.loopers@[j] == orig[j],
            decreases NUM_LOOPERS - i,
        {
            let l = self.loopers[i];
            if l.samples_since_waveform_update >= 256 {
                self.loopers[i] = LooperTrack { samples_since_waveform_update: 0, ..l };
                refresh.push(true);
            } else {
                refresh.push(false);
            }
            i = i + 1;
        }
        assert(self.loopers@ =~= Seq::new(
            NUM_LOOPERS as nat,
            |j: int| if orig[j].samples_since_waveform_update >= 256 {
                LooperTrack { samples_since_waveform_update: 0, ..orig[j] }
            } else {
                orig[j]
            },
        ));
        assert forall|j: int| 0 <= j < NUM_LOOPERS implies track_ok(#[trigger] self.loopers@[j]) by {
            assert(track_ok(orig[j]));
        }
        self.transport.playhead = cursor.transport_playhead;
        refresh
    }
}


/// Arming a track leaves exactly that track armed.
pub proof fn lemma_arming_is_exclusive(s: Seq<LooperTrack>, id: int)
    requires
        0 <= id < s.len(),
    ensures
        armed_only(s, id).len() == s.len(),
        armed_only(s, id)[id].state == LooperState::Armed,
        forall|i: int| 0 <= i < s.len() && i != id ==> (#[trigger] armed_only(s, id)[i]).state != LooperState::Armed,
{
}

/// Pressing a playing or overdubbing track twice gives back the track as it was.
pub proof fn lemma_toggle_twice_restores(l: LooperTrack)
    requires
        l.state == LooperState::Playing || l.state == LooperState::Overdubbing,
    ensures
        toggled_track(toggled_track(l)) == l,
{
}

/// A toggle between playing and overdubbing keeps a heard track's playhead inside its audio.
pub proof fn lemma_toggle_keeps_track_ok(l: LooperTrack)
    requires
        track_ok(l),
    ensures
        track_ok(toggled_track(l)),
{
}

/// After "mute all" the channels are all muted exactly when they were not all muted before,
/// and every channel carries the same mute switch.
pub proof fn lemma_mute_all_flips(m: Seq<MixerTrack>)
    requires
        m.len() > 0,
    ensures
        all_muted(mute_all_toggled(m)) == !all_muted(m),
        forall|i: int, j: int|
            0 <= i < m.len() && 0 <= j < m.len() ==> (#[trigger] mute_all_toggled(m)[i]).is_muted
                == (#[trigger] mute_all_toggled(m)[j]).is_muted,
{
    if !all_muted(m) {
        assert(mute_all_toggled(m)[0].is_muted);
    } else {
        assert(!mute_all_toggled(m)[0].is_muted);
    }
}

/// "Mute all" twice on channels that are all muted, or all unmuted, restores their mute switches.
pub proof fn lemma_mute_all_twice_restores_uniform(m: Seq<MixerTrack>)
    requires
        m.len() > 0,
        all_muted(m) || forall|k: int| 0 <= k < m.len() ==> !(#[trigger] m[k]).is_muted,
    ensures
        mute_all_toggled(mute_all_toggled(m)) == m,
{
    lemma_mute_all_flips(m);
    if all_muted(m) {
        assert(!all_muted(mute_all_toggled(m))) ;
    } else {
        assert(!m[0].is_muted);
        assert(all_muted(mute_all_toggled(m)));
    }
    assert(mute_all_toggled(mute_all_toggled(m)) =~= m);
}

/// Toggling the synth or the sampler never leaves both instruments active.
pub proof fn lemma_instruments_exclusive(sw: Switches)
    ensures
        !(synth_toggled(sw).synth_is_active && synth_toggled(sw).sampler_is_active),
        !(sampler_toggled(sw).synth_is_active && sampler_toggled(sw).sampler_is_active),
        synth_toggled(sw).synth_is_active ==> !synth_toggled(sw).sampler_is_active,
        sampler_toggled(sw).sampler_is_active ==> !sampler_toggled(sw).synth_is_active,
{
}

/// When a queued stop takes effect at a cycle boundary, the track keeps whole
/// transport cycles: its audio is the transport length times its loop length in cycles.
pub proof fn lemma_stopped_recording_is_whole_cycles(l: LooperTrack, transport_len: usize)
    requires
        wrap_pending(l).stop_is_queued,
        final_len(wrap_pending(l), transport_len) > 0,
        wrap_fits(l, transport_len),
    ensures
        wrapped_track(l, transport_len).state == LooperState::Playing,
        wrapped_track(l, transport_len).playhead == 0,
        wrapped_track(l, transport_len).audio_len == transport_len * wrapped_track(l, transport_len).length_in_cycles,
{
}

/// A cycle boundary keeps every heard track's playhead inside its audio.
pub proof fn lemma_wrap_keeps_track_ok(l: LooperTrack, transport_len: usize)
    requires
        track_ok(l),
        wrap_fits(l, transport_len),
    ensures
        track_ok(wrapped_track(l, transport_len)),
{
}

/// One sample of processing keeps every heard track's playhead inside its audio.
pub proof fn lemma_step_keeps_track_ok(l: LooperTrack, playing: bool, transport_len: usize, input_loud: bool)
    requires
        track_ok(l),
        step_fits(l, playing),
    ensures
        track_ok(stepped_track(l, playing, transport_len, input_loud)),
{
}

/// Clearing every track leaves no audio anywhere.
pub proof fn lemma_clearing_all_silences(s: Seq<LooperTrack>)
    ensures
        all_tracks_silent(all_cleared(s)),
{
}

/// While the transport is paused, a sample changes no track: an armed track
/// keeps waiting, nothing is recorded and no playhead moves. A track changes
/// its state in a sample only when an armed track starts recording, which
/// takes a playing transport without a length yet and a loud input; it then
/// counts its first cycle. Only a recording track grows, by the sample; only a
/// heard track's playhead moves, by one sample, back to the start at the end
/// of its audio; only written samples (recording, overdubbing) count towards
/// the waveform refresh.
pub proof fn lemma_step_needs_a_playing_transport(l: LooperTrack, playing: bool, transport_len: usize, input_loud: bool)
    ensures
        !playing ==> stepped_track(l, playing, transport_len, input_loud) == l,
        stepped_track(l, playing, transport_len, input_loud).state != l.state ==> {
            &&& l.state == LooperState::Armed
            &&& stepped_track(l, playing, transport_len, input_loud).state == LooperState::Recording
            &&& playing && transport_len == 0 && input_loud
            &&& stepped_track(l, playing, transport_len, input_loud).cycles_recorded == 1
        },
        l.state == LooperState::Armed && playing && transport_len == 0 && input_loud
            ==> stepped_track(l, playing, transport_len, input_loud).state == LooperState::Recording,
        stepped_track(l, playing, transport_len, input_loud).audio_len != l.audio_len ==> playing
            && l.state == LooperState::Recording,
        playing && l.state == LooperState::Recording && l.audio_len < usize::MAX
            ==> stepped_track(l, playing, transport_len, input_loud).audio_len == l.audio_len + 1,
        playing && (l.state == LooperState::Playing || l.state == LooperState::Overdubbing) && l.audio_len > 0 ==> {
            let n = stepped_track(l, playing, transport_len, input_loud);
            &&& n.state == l.state
            &&& n.audio_len == l.audio_len
            &&& n.playhead == (l.playhead + 1) % (l.audio_len as int)
        },
        stepped_track(l, playing, transport_len, input_loud).playhead != l.playhead ==> playing
            && (l.state == LooperState::Playing || l.state == LooperState::Overdubbing),
        stepped_track(l, playing, transport_len, input_loud).samples_since_waveform_update
            != l.samples_since_waveform_update ==> playing && (l.state == LooperState::Recording
            || (l.state == LooperState::Overdubbing && l.audio_len > 0)),
{
}

} // verus!
