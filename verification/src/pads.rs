//! Playback of the sampler's pads: a triggered pad plays its sample from the
//! start, one sample of audio per sample of output, and stops at its end.

use vstd::prelude::*;

verus! {

/// Number of sampler pads.
pub const NUM_PADS: usize = 16;

/// The playback state of one pad.
#[derive(Clone, Copy, Debug, PartialEq, Eq, Structural)]
pub struct PadPlayback {
    /// Number of samples of audio loaded on the pad.
    pub audio_len: usize,
    pub is_playing: bool,
    /// The position of the next sample to play.
    pub playhead: usize,
}

/// Whether a pad contributes a sample of audio at this output sample.
pub open spec fn pad_sounds(p: PadPlayback) -> bool {
    p.is_playing && p.playhead < p.audio_len
}

/// A pad after one output sample: a sounding pad moves on by a sample, a
/// playing pad past its end stops.
pub open spec fn pad_after_sample(p: PadPlayback) -> PadPlayback {
    if pad_sounds(p) {
        PadPlayback { playhead: (p.playhead + 1) as usize, ..p }
    } else if p.is_playing {
        PadPlayback { is_playing: false, ..p }
    } else {
        p
    }
}

/// A silent pad without audio.
pub open spec fn empty_pad() -> PadPlayback {
    PadPlayback { audio_len: 0, is_playing: false, playhead: 0 }
}

/// The sampler's pads.
pub struct SamplerPads {
    pub pads: Vec<PadPlayback>,
}

impl SamplerPads {
    /// Well-formedness: one entry per pad.
    pub open spec fn wf(&self) -> bool {
        self.pads@.len() == NUM_PADS
    }

    /// Pads without audio.
    pub fn new() -> (r: SamplerPads)
        ensures
            r.wf(),
            forall|i: int| 0 <= i < NUM_PADS ==> #[trigger] r.pads@[i] == empty_pad(),
    {
        let mut pads: Vec<PadPlayback> = Vec::new();
        let mut i: usize = 0;
        while i < NUM_PADS
            invariant
                i <= NUM_PADS,
                pads@.len() == i,
                forall|j: int| 0 <= j < i ==> #[trigger] pads@[j] == empty_pad(),
            decreases NUM_PADS - i,
        {
            pads.push(PadPlayback { audio_len: 0, is_playing: false, playhead: 0 });
            i = i + 1;
        }
        SamplerPads { pads }
    }

    /// Whether each pad holds audio.
    pub fn loaded(&self) -> (r: Vec<bool>)
        ensures
            r@.len() == self.pads@.len(),
            forall|i: int| 0 <= i < r@.len() ==> #[trigger] r@[i] == (self.pads@[i].audio_len > 0),
    {
        let mut r: Vec<bool> = Vec::new();
        let mut i: usize = 0;
        while i < self.pads.len()
            invariant
                i <= self.pads@.len(),
                r@.len() == i,
                forall|j: int| 0 <= j < i ==> #[trigger] r@[j] == (self.pads@[j].audio_len > 0),
            decreases self.pads@.len() - i,
        {
            r.push(self.pads[i].audio_len > 0);
            i = i + 1;
        }
        r
    }

    /// Triggers a pad: one that holds audio plays it from the start; an
    /// empty pad or an index past the pads changes nothing.
    pub fn trigger(&mut self, index: usize)
        ensures
            final(self).pads@ == if index < old(self).pads@.len() && old(self).pads@[index as int].audio_len > 0 {
                old(self).pads@.update(
                    index as int,
                    PadPlayback { is_playing: true, playhead: 0, ..old(self).pads@[index as int] },
                )
            } else {
                old(self).pads@
            },
    {
        if index < self.pads.len() && self.pads[index].audio_len > 0 {
            let p = self.pads[index];
            self.pads.set(index, PadPlayback { is_playing: true, playhead: 0, ..p });
        }
    }

    /// Loads audio of `audio_len` samples on a pad; its playback goes on where it is.
    pub fn load(&mut self, index: usize, audio_len: usize)
        ensures
            final(self).pads@ == if index < old(self).pads@.len() {
                old(self).pads@.update(index as int, PadPlayback { audio_len, ..old(self).pads@[index as int] })
            } else {
                old(self).pads@
            },
    {
        if index < self.pads.len() {
            let p = self.pads[index];
            self.pads.set(index, PadPlayback { audio_len, ..p });
        }
    }

    /// Removes a pad's audio and stops it.
    pub fn clear(&mut self, index: usize)
        ensures
            final(self).pads@ == if index < old(self).pads@.len() {
                old(self).pads@.update(
                    index as int,
                    PadPlayback { audio_len: 0, is_playing: false, ..old(self).pads@[index as int] },
                )
            } else {
                old(self).pads@
            },
    {
        if index < self.pads.len() {
            let p = self.pads[index];
            self.pads.set(index, PadPlayback { audio_len: 0, is_playing: false, ..p });
        }
    }

    /// One output sample of the sampler: while it is active every pad goes
    /// through `pad_after_sample`, and the result tells which pads sounded;
    /// while it is inactive nothing moves and nothing sounds.
    pub fn step(&mut self, sampler_active: bool) -> (sounding: Vec<bool>)
        ensures
            sounding@.len() == old(self).pads@.len(),
            sampler_active ==> final(self).pads@ == Seq::new(
                old(self).pads@.len(),
                |i: int| pad_after_sample(old(self).pads@[i]),
            ),
            !sampler_active ==> final(self).pads@ == old(self).pads@,
            forall|i: int| 0 <= i < sounding@.len() ==> #[trigger] sounding@[i] == (sampler_active
                && pad_sounds(old(self).pads@[i])),
    {
        let ghost orig = self.pads@;
        let mut sounding: Vec<bool> = Vec::new();
        let mut i: usize = 0;
        while i < self.pads.len()
            invariant
                i <= self.pads@.len(),
                self.pads@.len() == orig.len(),
                sounding@.len() == i,
                forall|j: int| 0 <= j < i ==> #[trigger] sounding@[j] == (sampler_active && pad_sounds(orig[j])),
                forall|j: int| 0 <= j < i ==> #[trigger] self.pads@[j] == if sampler_active {
                    pad_after_sample(orig[j])
                } else {
                    orig[j]
                },
                forall|j: int| i <= j < orig.len() ==> #[trigger] self.pads@[j] == orig[j],
            decreases self.pads@.len() - i,
        {
            let p = self.pads[i];
            if sampler_active && p.is_playing {
                if p.playhead < p.audio_len {
                    self.pads.set(i, PadPlayback { playhead: p.playhead + 1, ..p });
                    sounding.push(true);
                } else {
                    self.pads.set(i, PadPlayback { is_playing: false, ..p });
                    sounding.push(false);
                }
            } else {
                sounding.push(false);
            }
            i = i + 1;
        }
        proof {
            if sampler_active {
                assert(self.pads@ =~= Seq::new(orig.len(), |j: int| pad_after_sample(orig[j])));
            } else {
                assert(self.pads@ =~= orig);
            }
        }
        sounding
    }
}

/// A triggered pad sounds for exactly as many output samples as it holds,
/// then stops: after `k` active samples it has played `k` of them.
pub proof fn lemma_pad_plays_its_audio_once(p: PadPlayback, k: nat)
    requires
        p.is_playing,
        p.playhead == 0,
        k <= p.audio_len,
    ensures
        pads_after(p, k) == (PadPlayback { playhead: k as usize, ..p }),
        k < p.audio_len ==> pad_sounds(pads_after(p, k)),
        k == p.audio_len ==> !pad_sounds(pads_after(p, k)) && !pad_after_sample(pads_after(p, k)).is_playing,
    decreases k,
{
    if k > 0 {
        lemma_pad_plays_its_audio_once(p, (k - 1) as nat);
    }
}

/// A pad after `k` active output samples.
pub open spec fn pads_after(p: PadPlayback, k: nat) -> PadPlayback
    decreases k,
{
    if k == 0 {
        p
    } else {
        pad_after_sample(pads_after(p, (k - 1) as nat))
    }
}

} // verus!
