//! Scales, chord qualities, chord recognition and chord suggestions.

use vstd::prelude::*;
use crate::notes::{sorted_notes, strictly_increasing};
use crate::text::{compare_text, lemma_text_lt_order, lemma_text_lt_transitive, text_eq, text_lt, Precedence};
use std::collections::BTreeSet;

verus! {

/// Represents all the musical scales the application knows about.
#[derive(Clone, Copy, Debug, PartialEq, Eq, Hash, Structural)]
pub enum Scale {
    Ionian,
    NaturalMinor,
    HarmonicMinor,
    MelodicMinor,
    Dorian,
    Phrygian,
    Lydian,
    Mixolydian,
    Locrian,
    MajorPentatonic,
    MinorPentatonic,
    Blues,
    WholeTone,
    Chromatic,
}

/// The interval pattern (semitones above the root) of each scale.
pub open spec fn scale_intervals(scale: Scale) -> Seq<u8> {
    match scale {
        Scale::Ionian => seq![0u8, 2, 4, 5, 7, 9, 11],
        Scale::Dorian => seq![0u8, 2, 3, 5, 7, 9, 10],
        Scale::Phrygian => seq![0u8, 1, 3, 5, 7, 8, 10],
        Scale::Lydian => seq![0u8, 2, 4, 6, 7, 9, 11],
        Scale::Mixolydian => seq![0u8, 2, 4, 5, 7, 9, 10],
        Scale::NaturalMinor => seq![0u8, 2, 3, 5, 7, 8, 10],
        Scale::Locrian => seq![0u8, 1, 3, 5, 6, 8, 10],
        Scale::HarmonicMinor => seq![0u8, 2, 3, 5, 7, 8, 11],
        Scale::MelodicMinor => seq![0u8, 2, 3, 5, 7, 9, 11],
        Scale::MajorPentatonic => seq![0u8, 2, 4, 7, 9],
        Scale::MinorPentatonic => seq![0u8, 3, 5, 7, 10],
        Scale::Blues => seq![0u8, 3, 5, 6, 7, 10],
        Scale::WholeTone => seq![0u8, 2, 4, 6, 8, 10],
        Scale::Chromatic => seq![0u8, 1, 2, 3, 4, 5, 6, 7, 8, 9, 10, 11],
    }
}

/// All the scales, in the order the user interface lists them.
pub open spec fn all_scales() -> Seq<Scale> {
    seq![
        Scale::Ionian,
        Scale::Dorian,
        Scale::Phrygian,
        Scale::Lydian,
        Scale::Mixolydian,
        Scale::NaturalMinor,
        Scale::Locrian,
        Scale::HarmonicMinor,
        Scale::MelodicMinor,
        Scale::MajorPentatonic,
        Scale::MinorPentatonic,
        Scale::Blues,
        Scale::WholeTone,
        Scale::Chromatic,
    ]
}

impl Scale {
    /// All the scales, for iteration in the user interface.
    pub const ALL: [Scale; 14] = [
        Scale::Ionian,
        Scale::Dorian,
        Scale::Phrygian,
        Scale::Lydian,
        Scale::Mixolydian,
        Scale::NaturalMinor,
        Scale::Locrian,
        Scale::HarmonicMinor,
        Scale::MelodicMinor,
        Scale::MajorPentatonic,
        Scale::MinorPentatonic,
        Scale::Blues,
        Scale::WholeTone,
        Scale::Chromatic,
    ];

    /// Returns the interval pattern (in semitones from the root) for the scale.
    pub fn get_intervals(&self) -> (r: &'static [u8])
        ensures
            r@ == scale_intervals(*self),
    {
        match self {
            Scale::Ionian => &[0, 2, 4, 5, 7, 9, 11],
            Scale::Dorian => &[0, 2, 3, 5, 7, 9, 10],
            Scale::Phrygian => &[0, 1, 3, 5, 7, 8, 10],
            Scale::Lydian => &[0, 2, 4, 6, 7, 9, 11],
            Scale::Mixolydian => &[0, 2, 4, 5, 7, 9, 10],
            Scale::NaturalMinor => &[0, 2, 3, 5, 7, 8, 10],
            Scale::Locrian => &[0, 1, 3, 5, 6, 8, 10],
            Scale::HarmonicMinor => &[0, 2, 3, 5, 7, 8, 11],
            Scale::MelodicMinor => &[0, 2, 3, 5, 7, 9, 11],
            Scale::MajorPentatonic => &[0, 2, 4, 7, 9],
            Scale::MinorPentatonic => &[0, 3, 5, 7, 10],
            Scale::Blues => &[0, 3, 5, 6, 7, 10],
            Scale::WholeTone => &[0, 2, 4, 6, 8, 10],
            Scale::Chromatic => &[0, 1, 2, 3, 4, 5, 6, 7, 8, 9, 10, 11],
        }
    }
}


/// The name under which a scale is shown.
pub open spec fn scale_label(scale: Scale) -> Seq<char> {
    match scale {
        Scale::Ionian => "Major (Ionian)"@,
        Scale::NaturalMinor => "Minor (Aeolian)"@,
        Scale::HarmonicMinor => "Harmonic Minor"@,
        Scale::MelodicMinor => "Melodic Minor"@,
        Scale::Dorian => "Dorian"@,
        Scale::Phrygian => "Phrygian"@,
        Scale::Lydian => "Lydian"@,
        Scale::Mixolydian => "Mixolydian"@,
        Scale::Locrian => "Locrian"@,
        Scale::MajorPentatonic => "Major Pentatonic"@,
        Scale::MinorPentatonic => "Minor Pentatonic"@,
        Scale::Blues => "Blues"@,
        Scale::WholeTone => "Whole Tone"@,
        Scale::Chromatic => "Chromatic"@,
    }
}

impl Scale {
    /// The name under which the scale is shown.
    pub fn label(&self) -> (r: &'static str)
        ensures
            r@ == scale_label(*self),
    {
        match self {
            Scale::Ionian => "Major (Ionian)",
            Scale::NaturalMinor => "Minor (Aeolian)",
            Scale::HarmonicMinor => "Harmonic Minor",
            Scale::MelodicMinor => "Melodic Minor",
            Scale::Dorian => "Dorian",
            Scale::Phrygian => "Phrygian",
            Scale::Lydian => "Lydian",
            Scale::Mixolydian => "Mixolydian",
            Scale::Locrian => "Locrian",
            Scale::MajorPentatonic => "Major Pentatonic",
            Scale::MinorPentatonic => "Minor Pentatonic",
            Scale::Blues => "Blues",
            Scale::WholeTone => "Whole Tone",
            Scale::Chromatic => "Chromatic",
        }
    }
}

/// Generates the MIDI note numbers of a scale starting at the root note.
pub fn get_scale_notes(root_note: u8, scale: Scale) -> (r: Vec<u8>)
    requires
        forall|i: int| 0 <= i < scale_intervals(scale).len() ==> root_note + #[trigger] scale_intervals(scale)[i] <= 255,
    ensures
        r@ == scale_intervals(scale).map_values(|interval: u8| (root_note + interval) as u8),
{
    let intervals = scale.get_intervals();
    let mut r: Vec<u8> = Vec::new();
    let mut i: usize = 0;
    while i < intervals.len()
        invariant
            i <= intervals@.len(),
            intervals@ == scale_intervals(scale),
            forall|k: int| 0 <= k < intervals@.len() ==> root_note + #[trigger] intervals@[k] <= 255,
            r@ == intervals@.take(i as int).map_values(|interval: u8| (root_note + interval) as u8),
        decreases intervals@.len() - i,
    {
        r.push(root_note + intervals[i]);
        i = i + 1;
        assert(intervals@.take(i as int).drop_last() =~= intervals@.take(i - 1));
    }
    assert(intervals@.take(i as int) =~= intervals@);
    r
}

/// The quality of a chord.
#[derive(Clone, Copy, Debug, PartialEq, Eq, Hash, Structural)]
pub enum ChordQuality {
    MajorTriad,
    MinorTriad,
    DiminishedTriad,
    AugmentedTriad,
    DominantSeventh,
    MajorSeventh,
    MinorSeventh,
}

/// The interval pattern (semitones above the root) of each chord quality.
pub open spec fn chord_intervals(q: ChordQuality) -> Seq<u8> {
    match q {
        ChordQuality::MajorTriad => seq![0u8, 4, 7],
        ChordQuality::MinorTriad => seq![0u8, 3, 7],
        ChordQuality::DiminishedTriad => seq![0u8, 3, 6],
        ChordQuality::AugmentedTriad => seq![0u8, 4, 8],
        ChordQuality::DominantSeventh => seq![0u8, 4, 7, 10],
        ChordQuality::MajorSeventh => seq![0u8, 4, 7, 11],
        ChordQuality::MinorSeventh => seq![0u8, 3, 7, 10],
    }
}

/// The qualities chord recognition tries, in the order it tries them.
pub open spec fn recognizable_qualities() -> Seq<ChordQuality> {
    seq![
        ChordQuality::MajorTriad,
        ChordQuality::MinorTriad,
        ChordQuality::DominantSeventh,
        ChordQuality::MajorSeventh,
        ChordQuality::MinorSeventh,
        ChordQuality::DiminishedTriad,
        ChordQuality::AugmentedTriad,
    ]
}

impl ChordQuality {
    /// Returns the interval pattern (in semitones from the root) for the chord quality.
    pub fn get_intervals(&self) -> (r: &'static [u8])
        ensures
            r@ == chord_intervals(*self),
    {
        match self {
            ChordQuality::MajorTriad => &[0, 4, 7],
            ChordQuality::MinorTriad => &[0, 3, 7],
            ChordQuality::DiminishedTriad => &[0, 3, 6],
            ChordQuality::AugmentedTriad => &[0, 4, 8],
            ChordQuality::DominantSeventh => &[0, 4, 7, 10],
            ChordQuality::MajorSeventh => &[0, 4, 7, 11],
            ChordQuality::MinorSeventh => &[0, 3, 7, 10],
        }
    }
}

fn recognizable_quality(i: usize) -> (r: ChordQuality)
    requires
        i < 7,
    ensures
        r == recognizable_qualities()[i as int],
{
    if i == 0 {
        ChordQuality::MajorTriad
    } else if i == 1 {
        ChordQuality::MinorTriad
    } else if i == 2 {
        ChordQuality::DominantSeventh
    } else if i == 3 {
        ChordQuality::MajorSeventh
    } else if i == 4 {
        ChordQuality::MinorSeventh
    } else if i == 5 {
        ChordQuality::DiminishedTriad
    } else {
        ChordQuality::AugmentedTriad
    }
}

/// A recognized chord: its root note and quality.
#[derive(Clone, Copy, Debug, PartialEq, Eq, Structural)]
pub struct Chord {
    pub root: u8,
    pub quality: ChordQuality,
}

/// The interval of a note above a root, within one octave.
pub open spec fn pitch_offset(note: u8, root: u8) -> int {
    (note - root) % 12
}

/// Whether some note of the set lies the given interval above the root.
pub open spec fn has_offset(notes: Set<u8>, root: u8, k: int) -> bool {
    exists|n: u8| notes.contains(n) && pitch_offset(n, root) == k
}

/// The intervals of the notes above the root are exactly the quality's intervals.
pub open spec fn chord_matches(notes: Set<u8>, root: u8, q: ChordQuality) -> bool {
    forall|k: int| 0 <= k < 12 ==> (has_offset(notes, root, k) <==> chord_intervals(q).contains(k as u8))
}

/// The first quality, from position `i` of the recognition order on, that the notes form above the root.
pub open spec fn first_quality_from(notes: Set<u8>, root: u8, i: nat) -> Option<ChordQuality>
    decreases 7 - i,
{
    if i >= 7 {
        None
    } else if chord_matches(notes, root, recognizable_qualities()[i as int]) {
        Some(recognizable_qualities()[i as int])
    } else {
        first_quality_from(notes, root, i + 1)
    }
}

/// The quality recognized for the notes above the root, if any.
pub open spec fn chord_quality_at(notes: Set<u8>, root: u8) -> Option<ChordQuality> {
    first_quality_from(notes, root, 0)
}

fn interval_above(note: u8, root: u8) -> (r: usize)
    ensures
        r == pitch_offset(note, root),
        r < 12,
{
    if note >= root {
        ((note - root) % 12) as usize
    } else {
        let d = root - note;
        let m = d % 12;
        assert((note - root) % 12 == (12 - m) % 12) by (nonlinear_arith)
            requires
                d == root - note,
                m == d % 12,
                d > 0,
        ;
        ((12 - m) % 12) as usize
    }
}

fn seq_contains_u8(s: &[u8], k: u8) -> (r: bool)
    ensures
        r == s@.contains(k),
{
    let mut i: usize = 0;
    while i < s.len()
        invariant
            i <= s@.len(),
            forall|j: int| 0 <= j < i ==> s@[j] != k,
        decreases s@.len() - i,
    {
        if s[i] == k {
            assert(s@[i as int] == k);
            return true;
        }
        i = i + 1;
    }
    false
}

/// Whether the notes (listed in `sorted`) form the quality above the root.
fn matches_quality(sorted: &Vec<u8>, root: u8, q: ChordQuality, notes: Ghost<Set<u8>>) -> (r: bool)
    requires
        sorted@.to_set() == notes@,
    ensures
        r == chord_matches(notes@, root, q),
{
    let mut present: Vec<bool> = Vec::new();
    let mut k: usize = 0;
    while k < 12
        invariant
            k <= 12,
            present@.len() == k,
            forall|j: int| 0 <= j < k ==> !(#[trigger] present@[j]),
        decreases 12 - k,
    {
        present.push(false);
        k = k + 1;
    }
    let mut i: usize = 0;
    while i < sorted.len()
        invariant
            i <= sorted@.len(),
            present@.len() == 12,
            forall|j: int| 0 <= j < 12 ==> #[trigger] present@[j] == exists|a: int| 0 <= a < i && pitch_offset(sorted@[a], root) == j,
        decreases sorted@.len() - i,
    {
        let off = interval_above(sorted[i], root);
        present[off] = true;
        i = i + 1;
    }
    let intervals = q.get_intervals();
    let mut j: usize = 0;
    while j < 12
        invariant
            j <= 12,
            present@.len() == 12,
            sorted@.to_set() == notes@,
            intervals@ == chord_intervals(q),
            forall|m: int| 0 <= m < 12 ==> #[trigger] present@[m] == exists|a: int| 0 <= a < sorted@.len() && pitch_offset(sorted@[a], root) == m,
            forall|m: int| 0 <= m < j ==> (#[trigger] present@[m] <==> intervals@.contains(m as u8)),
        decreases 12 - j,
    {
        let c = seq_contains_u8(intervals, j as u8);
        if present[j] != c {
            proof {
                if present@[j as int] {
                    let a = choose|a: int| 0 <= a < sorted@.len() && pitch_offset(sorted@[a], root) == j;
                    assert(sorted@.contains(sorted@[a]));
                    assert(sorted@.to_set().contains(sorted@[a]));
                    assert(has_offset(notes@, root, j as int));
                } else {
                    assert forall|n: u8| notes@.contains(n) implies pitch_offset(n, root) != j by {
                        assert(sorted@.to_set().contains(n));
                        let a = choose|a: int| 0 <= a < sorted@.len() && sorted@[a] == n;
                    }
                }
                assert(!(has_offset(notes@, root, j as int) <==> chord_intervals(q).contains(j as u8)));
            }
            return false;
        }
        j = j + 1;
    }
    proof {
        assert forall|m: int| 0 <= m < 12 implies (has_offset(notes@, root, m) <==> chord_intervals(q).contains(m as u8)) by {
            if has_offset(notes@, root, m) {
                let n = choose|n: u8| notes@.contains(n) && pitch_offset(n, root) == m;
                assert(sorted@.to_set().contains(n));
                let a = choose|a: int| 0 <= a < sorted@.len() && sorted@[a] == n;
                assert(present@[m]);
            }
            if present@[m] {
                let a = choose|a: int| 0 <= a < sorted@.len() && pitch_offset(sorted@[a], root) == m;
                assert(sorted@.to_set().contains(sorted@[a]));
            }
        }
    }
    true
}

/// A note of the set above which the notes form a recognizable quality, while
/// they form none above any lower note of the set.
pub open spec fn is_chord_root(notes: Set<u8>, n: u8) -> bool {
    &&& notes.contains(n)
    &&& chord_quality_at(notes, n) is Some
    &&& forall|m: u8| notes.contains(m) && m < n ==> chord_quality_at(notes, m) is None
}

/// The chord recognized from a set of at least three notes: the lowest root and its quality.
pub open spec fn recognized_chord(notes: Set<u8>) -> Option<Chord> {
    if notes.len() >= 3 && exists|n: u8| is_chord_root(notes, n) {
        let n = choose|n: u8| is_chord_root(notes, n);
        Some(Chord { root: n, quality: chord_quality_at(notes, n)->Some_0 })
    } else {
        None
    }
}

proof fn lemma_recognized_chord(notes: Set<u8>, r: Option<Chord>)
    requires
        r matches Some(c) ==> {
            &&& notes.len() >= 3
            &&& notes.contains(c.root)
            &&& chord_quality_at(notes, c.root) == Some(c.quality)
            &&& forall|n: u8| notes.contains(n) && n < c.root ==> chord_quality_at(notes, n) is None
        },
        r is None ==> notes.len() < 3 || forall|n: u8| notes.contains(n) ==> chord_quality_at(notes, n) is None,
    ensures
        r == recognized_chord(notes),
{
    match r {
        Some(c) => {
            assert(is_chord_root(notes, c.root));
            let n = choose|n: u8| is_chord_root(notes, n);
            if n < c.root {
                assert(chord_quality_at(notes, n) is None);
            } else if c.root < n {
                assert(chord_quality_at(notes, c.root) is None);
            }
        },
        None => {
            if notes.len() >= 3 && exists|n: u8| is_chord_root(notes, n) {
                let n = choose|n: u8| is_chord_root(notes, n);
                assert(notes.contains(n));
            }
        },
    }
}

/// Attempts to recognize a chord from a set of played notes, inversions included:
/// with at least three notes, the lowest note above which the notes form one of
/// the recognizable qualities is the root, with the first such quality in the
/// recognition order.
pub fn recognize_chord(notes: &BTreeSet<u8>) -> (r: Option<Chord>)
    ensures
        r matches Some(c) ==> {
            &&& notes@.len() >= 3
            &&& notes@.contains(c.root)
            &&& chord_quality_at(notes@, c.root) == Some(c.quality)
            &&& forall|n: u8| notes@.contains(n) && n < c.root ==> chord_quality_at(notes@, n) is None
        },
        r is None ==> notes@.len() < 3 || forall|n: u8| notes@.contains(n) ==> chord_quality_at(notes@, n) is None,
        r == recognized_chord(notes@),
{
    let sorted = sorted_notes(notes);
    if sorted.len() < 3 {
        proof {
            lemma_recognized_chord(notes@, None);
        }
        return None;
    }
    let ghost set = notes@;
    let mut idx: usize = 0;
    while idx < sorted.len()
        invariant
            idx <= sorted@.len(),
            sorted@.to_set() == set,
            set == notes@,
            sorted@.len() == set.len(),
            sorted@.len() >= 3,
            strictly_increasing(sorted@),
            forall|j: int| 0 <= j < idx ==> chord_quality_at(set, #[trigger] sorted@[j]) is None,
        decreases sorted@.len() - idx,
    {
        let root = sorted[idx];
        let mut qi: usize = 0;
        while qi < 7
            invariant
                qi <= 7,
                idx < sorted@.len(),
                root == sorted@[idx as int],
                sorted@.to_set() == set,
                set == notes@,
                sorted@.len() >= 3,
                sorted@.len() == set.len(),
                strictly_increasing(sorted@),
                forall|j: int| 0 <= j < idx ==> chord_quality_at(set, #[trigger] sorted@[j]) is None,
                chord_quality_at(set, root) == first_quality_from(set, root, qi as nat),
            decreases 7 - qi,
        {
            let q = recognizable_quality(qi);
            if matches_quality(&sorted, root, q, Ghost(set)) {
                proof {
                    assert(sorted@.contains(root));
                    assert(sorted@.to_set().contains(root));
                    assert forall|n: u8| set.contains(n) && n < root implies chord_quality_at(set, n) is None by {
                        assert(sorted@.to_set().contains(n));
                        let j = choose|j: int| 0 <= j < sorted@.len() && sorted@[j] == n;
                        if j >= idx {
                            if j > idx {
                                assert(sorted@[idx as int] < sorted@[j]);
                            }
                        }
                    }
                }
                let found = Some(Chord { root, quality: q });
                proof {
                    lemma_recognized_chord(set, found);
                }
                return found;
            }
            qi = qi + 1;
        }
        idx = idx + 1;
    }
    proof {
        assert forall|n: u8| set.contains(n) implies chord_quality_at(set, n) is None by {
            assert(sorted@.to_set().contains(n));
            let j = choose|j: int| 0 <= j < sorted@.len() && sorted@[j] == n;
        }
        lemma_recognized_chord(set, None);
    }
    None
}


/// The target root of a chord: the root's pitch class in the given octave.
pub open spec fn chord_base(root: u8, start_octave: u8) -> int {
    root % 12 + (start_octave + 1) * 12
}

/// The chord's notes before any octave shift.
pub open spec fn unshifted_chord(root: u8, quality: ChordQuality, start_octave: u8) -> Seq<u8> {
    chord_intervals(quality).map_values(|interval: u8| (chord_base(root, start_octave) + interval) as u8)
}

pub open spec fn any_above(s: Seq<u8>, limit: u8) -> bool {
    exists|i: int| 0 <= i < s.len() && s[i] > limit
}

pub open spec fn any_below(s: Seq<u8>, limit: u8) -> bool {
    exists|i: int| 0 <= i < s.len() && s[i] < limit
}

/// Every note an octave lower, stopping at zero.
pub open spec fn octave_down(s: Seq<u8>) -> Seq<u8> {
    s.map_values(|n: u8| if n >= 12 { (n - 12) as u8 } else { 0u8 })
}

/// Every note an octave higher, stopping at 255.
pub open spec fn octave_up(s: Seq<u8>) -> Seq<u8> {
    s.map_values(|n: u8| if n <= 243 { (n + 12) as u8 } else { 255u8 })
}

/// Lowest key of an 88-key piano (A0).
pub const FIRST_KEY: u8 = 21;
/// Highest key of an 88-key piano (C8).
pub const LAST_KEY: u8 = 108;

/// The notes of a chord in an octave, moved an octave down when a note lies
/// above the piano's top key, and then an octave up when a note lies below its
/// bottom key.
pub open spec fn chord_notes(root: u8, quality: ChordQuality, start_octave: u8) -> Seq<u8> {
    let a = unshifted_chord(root, quality, start_octave);
    let b = if any_above(a, LAST_KEY) { octave_down(a) } else { a };
    if any_below(b, FIRST_KEY) { octave_up(b) } else { b }
}

/// The largest interval of the quality.
pub open spec fn top_interval(quality: ChordQuality) -> u8 {
    match quality {
        ChordQuality::MajorTriad | ChordQuality::MinorTriad => 7,
        ChordQuality::DiminishedTriad => 6,
        ChordQuality::AugmentedTriad => 8,
        ChordQuality::DominantSeventh | ChordQuality::MinorSeventh => 10,
        ChordQuality::MajorSeventh => 11,
    }
}

/// Builds the notes of a chord from its root and quality in the given octave
/// (octave n starts at note 12 (n + 1), so that middle C, note 60, is C4), shifted to stay on an 88-key piano where it can.
pub fn build_chord_notes(root: u8, quality: ChordQuality, start_octave: u8) -> (r: Vec<u8>)
    requires
        chord_base(root, start_octave) + top_interval(quality) <= 255,
    ensures
        r@ == chord_notes(root, quality, start_octave),
{
    let intervals = quality.get_intervals();
    let target_root = (root % 12) + (start_octave + 1) * 12;
    let mut notes: Vec<u8> = Vec::new();
    let mut i: usize = 0;
    while i < intervals.len()
        invariant
            i <= intervals@.len(),
            intervals@ == chord_intervals(quality),
            target_root == chord_base(root, start_octave),
            chord_base(root, start_octave) + top_interval(quality) <= 255,
            notes@ == intervals@.take(i as int).map_values(|interval: u8| (chord_base(root, start_octave) + interval) as u8),
        decreases intervals@.len() - i,
    {
        assert(intervals@[i as int] <= top_interval(quality));
        notes.push(target_root + intervals[i]);
        i = i + 1;
        assert(intervals@.take(i as int).drop_last() =~= intervals@.take(i - 1));
    }
    assert(intervals@.take(i as int) =~= intervals@);
    let ghost a = notes@;
    assert(a == unshifted_chord(root, quality, start_octave));

    let mut above = false;
    let mut k: usize = 0;
    while k < notes.len()
        invariant
            k <= notes@.len(),
            above == exists|j: int| 0 <= j < k && notes@[j] > LAST_KEY,
        decreases notes@.len() - k,
    {
        if notes[k] > LAST_KEY {
            above = true;
        }
        k = k + 1;
    }
    if above {
        let mut m: usize = 0;
        while m < notes.len()
            invariant
                m <= notes@.len(),
                notes@.len() == a.len(),
                forall|j: int| 0 <= j < m ==> #[trigger] notes@[j] == (if a[j] >= 12 { (a[j] - 12) as u8 } else { 0u8 }),
                forall|j: int| m <= j < a.len() ==> #[trigger] notes@[j] == a[j],
            decreases notes@.len() - m,
        {
            let n = notes[m];
            notes[m] = n.saturating_sub(12);
            m = m + 1;
        }
        assert(notes@ =~= octave_down(a));
    }
    let ghost b = notes@;
    assert(b == (if any_above(a, LAST_KEY) { octave_down(a) } else { a }));

    let mut below = false;
    let mut k2: usize = 0;
    while k2 < notes.len()
        invariant
            k2 <= notes@.len(),
            below == exists|j: int| 0 <= j < k2 && notes@[j] < FIRST_KEY,
        decreases notes@.len() - k2,
    {
        if notes[k2] < FIRST_KEY {
            below = true;
        }
        k2 = k2 + 1;
    }
    if below {
        let mut m: usize = 0;
        while m < notes.len()
            invariant
                m <= notes@.len(),
                notes@.len() == b.len(),
                forall|j: int| 0 <= j < m ==> #[trigger] notes@[j] == (if b[j] <= 243 { (b[j] + 12) as u8 } else { 255u8 }),
                forall|j: int| m <= j < b.len() ==> #[trigger] notes@[j] == b[j],
            decreases notes@.len() - m,
        {
            let n = notes[m];
            notes[m] = n.saturating_add(12);
            m = m + 1;
        }
        assert(notes@ =~= octave_up(b));
    }
    notes
}

/// The "flavor" of chord suggestions: which quality to suggest for each
/// harmonic function ("dominant", "subdominant", "relative_minor",
/// "relative_major", "dominant_of_dominant").
pub struct ChordStyle {
    pub name: String,
    pub suggestions: Vec<(String, ChordQuality)>,
}

impl Default for ChordStyle {
    fn default() -> (r: ChordStyle)
        ensures
            r.name@ == Seq::<char>::empty(),
            r.suggestions@.len() == 0,
            suggestion_names_unique(r.suggestions@),
            suggestions_sorted(r.suggestions@),
    {
        ChordStyle { name: String::new(), suggestions: Vec::new() }
    }
}

/// The quality a style gives a harmonic function: that of its first entry for it.
#[verifier::opaque]
pub open spec fn style_quality(s: Seq<(String, ChordQuality)>, function: Seq<char>) -> Option<ChordQuality> {
    if exists|i: int| 0 <= i < s.len() && (#[trigger] s[i]).0@ == function {
        let i = choose|i: int| 0 <= i < s.len() && (#[trigger] s[i]).0@ == function
            && forall|j: int| 0 <= j < i ==> (#[trigger] s[j]).0@ != function;
        Some(s[i].1)
    } else {
        None
    }
}

/// No harmonic function has two entries, as in a style read from a file.
pub open spec fn suggestion_names_unique(s: Seq<(String, ChordQuality)>) -> bool {
    forall|i: int, j: int| 0 <= i < j < s.len() ==> (#[trigger] s[i]).0@ != (#[trigger] s[j]).0@
}

/// The quality of a function is that of its first entry.
proof fn lemma_first_entry(s: Seq<(String, ChordQuality)>, f: Seq<char>, k: int)
    requires
        0 <= k < s.len(),
        s[k].0@ == f,
        forall|j: int| 0 <= j < k ==> (#[trigger] s[j]).0@ != f,
    ensures
        style_quality(s, f) == Some(s[k].1),
{
    reveal(style_quality);
    let c = choose|c: int| 0 <= c < s.len() && (#[trigger] s[c]).0@ == f
        && forall|j: int| 0 <= j < c ==> (#[trigger] s[j]).0@ != f;
    if c < k {
        assert(s[c].0@ != f);
    } else if c > k {
        assert(s[k].0@ != f);
    }
}

/// A function without an entry has no quality.
proof fn lemma_no_entry(s: Seq<(String, ChordQuality)>, f: Seq<char>)
    requires
        forall|j: int| 0 <= j < s.len() ==> (#[trigger] s[j]).0@ != f,
    ensures
        style_quality(s, f) is None,
{
    reveal(style_quality);
}

/// With one entry per function, the quality of a function is that of its
/// entry, wherever the entry stands.
pub proof fn lemma_unique_style_quality(s: Seq<(String, ChordQuality)>, i: int)
    requires
        suggestion_names_unique(s),
        0 <= i < s.len(),
    ensures
        style_quality(s, s[i].0@) == Some(s[i].1),
{
    assert forall|j: int| 0 <= j < i implies (#[trigger] s[j]).0@ != s[i].0@ by {
        assert(s[j].0@ != s[i].0@);
    }
    lemma_first_entry(s, s[i].0@, i);
}

impl ChordStyle {
    /// The quality the style gives a harmonic function, if any.
    pub fn quality_for(&self, function: &str) -> (r: Option<ChordQuality>)
        ensures
            r == style_quality(self.suggestions@, function@),
    {
        let s = &self.suggestions;
        let mut i: usize = 0;
        while i < s.len()
            invariant
                i <= s@.len(),
                s@ == self.suggestions@,
                forall|j: int| 0 <= j < i ==> (#[trigger] s@[j]).0@ != function@,
            decreases s@.len() - i,
        {
            if text_eq(s[i].0.as_str(), function) {
                proof {
                    lemma_first_entry(s@, function@, i as int);
                }
                return Some(s[i].1);
            }
            i = i + 1;
        }
        proof {
            lemma_no_entry(s@, function@);
        }
        None
    }
}

/// Where a function has an entry, it has a first one.
proof fn lemma_find_first(s: Seq<(String, ChordQuality)>, f: Seq<char>, k0: int) -> (k: int)
    requires
        0 <= k0 < s.len(),
        s[k0].0@ == f,
    ensures
        0 <= k <= k0,
        s[k].0@ == f,
        forall|j: int| 0 <= j < k ==> (#[trigger] s[j]).0@ != f,
    decreases k0,
{
    if exists|j: int| 0 <= j < k0 && (#[trigger] s[j]).0@ == f {
        let j = choose|j: int| 0 <= j < k0 && (#[trigger] s[j]).0@ == f;
        lemma_find_first(s, f, j)
    } else {
        k0
    }
}

proof fn lemma_update_keeps_others(s: Seq<(String, ChordQuality)>, i: int, e: (String, ChordQuality), f: Seq<char>)
    requires
        0 <= i < s.len(),
        s[i].0@ == e.0@,
        f != e.0@,
    ensures
        style_quality(s.update(i, e), f) == style_quality(s, f),
{
    let t = s.update(i, e);
    if exists|k: int| 0 <= k < s.len() && (#[trigger] s[k]).0@ == f {
        let k0 = choose|k: int| 0 <= k < s.len() && (#[trigger] s[k]).0@ == f;
        let k = lemma_find_first(s, f, k0);
        assert(k != i);
        assert forall|j: int| 0 <= j < k implies (#[trigger] t[j]).0@ != f by {
            if j != i {
                assert(t[j] == s[j]);
                assert(s[j].0@ != f);
            }
        }
        lemma_first_entry(t, f, k);
        lemma_first_entry(s, f, k);
    } else {
        assert forall|j: int| 0 <= j < t.len() implies (#[trigger] t[j]).0@ != f by {
            if j != i {
                assert(t[j] == s[j]);
            }
        }
        lemma_no_entry(s, f);
        lemma_no_entry(t, f);
    }
}

/// The entries come in increasing order of their functions' names, as a
/// style read from a file lists them.
pub open spec fn suggestions_sorted(s: Seq<(String, ChordQuality)>) -> bool {
    forall|i: int, j: int| 0 <= i < j < s.len() ==> text_lt((#[trigger] s[i]).0@, (#[trigger] s[j]).0@)
}

/// An entry for a function without one, put in its place in the order:
/// it gives that function its quality, leaves the others as they were,
/// and keeps the entries unique and in order.
proof fn lemma_insert_entry(s: Seq<(String, ChordQuality)>, p: int, e: (String, ChordQuality))
    requires
        0 <= p <= s.len(),
        forall|j: int| 0 <= j < s.len() ==> (#[trigger] s[j]).0@ != e.0@,
        suggestions_sorted(s) ==> (forall|j: int| 0 <= j < p ==> text_lt((#[trigger] s[j]).0@, e.0@))
            && (forall|j: int| p <= j < s.len() ==> text_lt(e.0@, (#[trigger] s[j]).0@)),
    ensures
        style_quality(s.insert(p, e), e.0@) == Some(e.1),
        forall|f: Seq<char>| f != e.0@ ==> #[trigger] style_quality(s.insert(p, e), f) == style_quality(s, f),
        suggestion_names_unique(s) ==> suggestion_names_unique(s.insert(p, e)),
        suggestions_sorted(s) ==> suggestions_sorted(s.insert(p, e)),
{
    let t = s.insert(p, e);
    assert forall|j: int| 0 <= j < p implies (#[trigger] t[j]).0@ != e.0@ by {
        assert(t[j] == s[j]);
    }
    lemma_first_entry(t, e.0@, p);
    assert forall|f: Seq<char>| f != e.0@ implies #[trigger] style_quality(t, f) == style_quality(s, f) by {
        if exists|k: int| 0 <= k < s.len() && (#[trigger] s[k]).0@ == f {
            let k0 = choose|k: int| 0 <= k < s.len() && (#[trigger] s[k]).0@ == f;
            let k = lemma_find_first(s, f, k0);
            let tk = if k < p { k } else { k + 1 };
            assert(t[tk] == s[k]);
            assert forall|j: int| 0 <= j < tk implies (#[trigger] t[j]).0@ != f by {
                if j < p {
                    assert(t[j] == s[j]);
                } else if j > p {
                    assert(t[j] == s[j - 1]);
                }
            }
            lemma_first_entry(t, f, tk);
            lemma_first_entry(s, f, k);
        } else {
            assert forall|j: int| 0 <= j < t.len() implies (#[trigger] t[j]).0@ != f by {
                if j < p {
                    assert(t[j] == s[j]);
                } else if j > p {
                    assert(t[j] == s[j - 1]);
                }
            }
            lemma_no_entry(s, f);
            lemma_no_entry(t, f);
        }
    }
    if suggestion_names_unique(s) {
        assert forall|a: int, b: int| 0 <= a < b < t.len() implies (#[trigger] t[a]).0@ != (#[trigger] t[b]).0@ by {
            if a < p && b < p {
                assert(t[a] == s[a] && t[b] == s[b]);
            } else if a < p && b == p {
                assert(t[a] == s[a]);
            } else if a < p {
                assert(t[a] == s[a] && t[b] == s[b - 1]);
            } else if a == p {
                assert(t[b] == s[b - 1]);
            } else {
                assert(t[a] == s[a - 1] && t[b] == s[b - 1]);
            }
        }
    }
    if suggestions_sorted(s) {
        assert forall|a: int, b: int| 0 <= a < b < t.len() implies text_lt((#[trigger] t[a]).0@, (#[trigger] t[b]).0@) by {
            if a < p && b < p {
                assert(t[a] == s[a] && t[b] == s[b]);
            } else if a < p && b == p {
                assert(t[a] == s[a]);
            } else if a < p {
                assert(t[a] == s[a] && t[b] == s[b - 1]);
            } else if a == p {
                assert(t[b] == s[b - 1]);
            } else {
                assert(t[a] == s[a - 1] && t[b] == s[b - 1]);
            }
        }
    }
}

/// Replacing an entry by one for the same function keeps the entries unique and in order.
proof fn lemma_same_name_kept(s: Seq<(String, ChordQuality)>, i: int, e: (String, ChordQuality))
    requires
        0 <= i < s.len(),
        s[i].0@ == e.0@,
    ensures
        suggestion_names_unique(s) ==> suggestion_names_unique(s.update(i, e)),
        suggestions_sorted(s) ==> suggestions_sorted(s.update(i, e)),
{
    let t = s.update(i, e);
    assert forall|a: int| 0 <= a < t.len() implies (#[trigger] t[a]).0@ == s[a].0@ by {}
    if suggestion_names_unique(s) {
        assert forall|a: int, b: int| 0 <= a < b < t.len() implies (#[trigger] t[a]).0@ != (#[trigger] t[b]).0@ by {
            assert(s[a].0@ != s[b].0@);
        }
    }
    if suggestions_sorted(s) {
        assert forall|a: int, b: int| 0 <= a < b < t.len() implies text_lt((#[trigger] t[a]).0@, (#[trigger] t[b]).0@) by {
            assert(text_lt(s[a].0@, s[b].0@));
        }
    }
}

impl ChordStyle {
    /// Gives the function the quality: its entry's quality is replaced, or a
    /// new entry is added, in its place in the order of names, when it has none.
    pub fn set_quality(&mut self, function: String, quality: ChordQuality)
        ensures
            final(self).name@ == old(self).name@,
            style_quality(final(self).suggestions@, function@) == Some(quality),
            forall|f: Seq<char>| f != function@ ==> #[trigger] style_quality(final(self).suggestions@, f)
                == style_quality(old(self).suggestions@, f),
            suggestion_names_unique(old(self).suggestions@) ==> suggestion_names_unique(final(self).suggestions@),
            suggestions_sorted(old(self).suggestions@) ==> suggestions_sorted(final(self).suggestions@),
    {
        let ghost s = self.suggestions@;
        let ghost fv = function@;
        let mut i: usize = 0;
        while i < self.suggestions.len()
            invariant
                i <= s.len(),
                self.suggestions@ == s,
                self.name@ == old(self).name@,
                s == old(self).suggestions@,
                fv == function@,
                forall|j: int| 0 <= j < i ==> (#[trigger] s[j]).0@ != fv,
            decreases s.len() - i,
        {
            if text_eq(self.suggestions[i].0.as_str(), function.as_str()) {
                self.suggestions[i] = (function, quality);
                proof {
                    let t = self.suggestions@;
                    assert(t =~= s.update(i as int, t[i as int]));
                    assert forall|j: int| 0 <= j < i implies (#[trigger] t[j]).0@ != fv by {
                        assert(t[j] == s[j]);
                    }
                    lemma_first_entry(t, fv, i as int);
                    assert forall|f: Seq<char>| f != fv implies #[trigger] style_quality(t, f) == style_quality(s, f) by {
                        lemma_update_keeps_others(s, i as int, t[i as int], f);
                    }
                    lemma_same_name_kept(s, i as int, t[i as int]);
                }
                return;
            }
            i = i + 1;
        }
        let mut p: usize = 0;
        while p < self.suggestions.len()
            invariant
                p <= s.len(),
                self.suggestions@ == s,
                fv == function@,
                forall|j: int| 0 <= j < s.len() ==> (#[trigger] s[j]).0@ != fv,
                suggestions_sorted(s) ==> forall|j: int| 0 <= j < p ==> text_lt((#[trigger] s[j]).0@, fv),
            ensures
                p <= s.len(),
                suggestions_sorted(s) ==> forall|j: int| 0 <= j < p ==> text_lt((#[trigger] s[j]).0@, fv),
                p < s.len() ==> text_lt(fv, s[p as int].0@),
            decreases s.len() - p,
        {
            match compare_text(self.suggestions[p].0.as_str(), function.as_str(), false) {
                Precedence::Before => {
                    p = p + 1;
                },
                _ => {
                    break;
                },
            }
        }
        proof {
            if suggestions_sorted(s) {
                assert forall|j: int| p <= j < s.len() implies text_lt(fv, (#[trigger] s[j]).0@) by {
                    if j > p {
                        lemma_text_lt_transitive(fv, s[p as int].0@, s[j].0@, false);
                    }
                }
            }
            lemma_insert_entry(s, p as int, (function, quality));
        }
        self.suggestions.insert(p, (function, quality));
    }
}

/// Whether a chord of the quality counts as major for suggestions.
pub open spec fn is_major_quality(q: ChordQuality) -> bool {
    q == ChordQuality::MajorTriad || q == ChordQuality::MajorSeventh || q == ChordQuality::DominantSeventh
}

pub open spec fn push_if(s: Seq<(ChordQuality, u8)>, q: Option<ChordQuality>, root: int) -> Seq<(ChordQuality, u8)> {
    match q {
        Some(quality) => s.push((quality, root as u8)),
        None => s,
    }
}

/// The suggestions for a played chord (see `get_chord_suggestions`).
pub open spec fn chord_suggestions(chord: Chord, style: Seq<(String, ChordQuality)>) -> Seq<(ChordQuality, u8)> {
    let root = chord.root;
    let dominant = (root + 7) % 12;
    let s1 = push_if(Seq::empty(), style_quality(style, "dominant"@), dominant);
    let s2 = push_if(s1, style_quality(style, "subdominant"@), (root + 5) % 12);
    let s3 = if is_major_quality(chord.quality) {
        push_if(s2, style_quality(style, "relative_minor"@), (root + 9) % 12)
    } else {
        push_if(s2, style_quality(style, "relative_major"@), (root + 3) % 12)
    };
    push_if(s3, style_quality(style, "dominant_of_dominant"@), (dominant + 7) % 12)
}

/// Gets harmonically related chord suggestions along the circle of fifths:
/// the dominant, the subdominant, the relative minor of a major chord (the
/// relative major otherwise) and the dominant of the dominant, each with the
/// quality the style gives it and skipped where the style gives none. Roots
/// are pitch classes (0 to 11).
pub fn get_chord_suggestions(played_chord: &Chord, style: &ChordStyle) -> (r: Vec<(ChordQuality, u8)>)
    requires
        played_chord.root <= 248,
        is_major_quality(played_chord.quality) ==> played_chord.root <= 246,
    ensures
        r@ == chord_suggestions(*played_chord, style.suggestions@),
{
    let root = played_chord.root;
    let mut suggestions: Vec<(ChordQuality, u8)> = Vec::new();
    let dominant_root = (root + 7) % 12;
    if let Some(quality) = style.quality_for("dominant") {
        suggestions.push((quality, dominant_root));
    }
    let subdominant_root = (root + 5) % 12;
    if let Some(quality) = style.quality_for("subdominant") {
        suggestions.push((quality, subdominant_root));
    }
    let is_major = match played_chord.quality {
        ChordQuality::MajorTriad | ChordQuality::MajorSeventh | ChordQuality::DominantSeventh => true,
        _ => false,
    };
    if is_major {
        let rel_minor_root = (root + 9) % 12;
        if let Some(quality) = style.quality_for("relative_minor") {
            suggestions.push((quality, rel_minor_root));
        }
    } else {
        let rel_major_root = (root + 3) % 12;
        if let Some(quality) = style.quality_for("relative_major") {
            suggestions.push((quality, rel_major_root));
        }
    }
    let sec_dominant_root = (dominant_root + 7) % 12;
    if let Some(quality) = style.quality_for("dominant_of_dominant") {
        suggestions.push((quality, sec_dominant_root));
    }
    suggestions
}

/// A chord built from a pitch class in octaves 0 to 7 lies on the 88-key piano.
pub proof fn lemma_chord_notes_on_piano(root: u8, quality: ChordQuality, start_octave: u8)
    requires
        root < 12,
        start_octave <= 7,
    ensures
        forall|i: int| 0 <= i < chord_notes(root, quality, start_octave).len() ==>
            FIRST_KEY <= #[trigger] chord_notes(root, quality, start_octave)[i] <= LAST_KEY,
{
    let base = chord_base(root, start_octave);
    let ints = chord_intervals(quality);
    assert(forall|i: int| 0 <= i < ints.len() ==> #[trigger] ints[i] <= 11) by {
        match quality {
            ChordQuality::MajorTriad => assert(ints =~= seq![0u8, 4, 7]),
            ChordQuality::MinorTriad => assert(ints =~= seq![0u8, 3, 7]),
            ChordQuality::DiminishedTriad => assert(ints =~= seq![0u8, 3, 6]),
            ChordQuality::AugmentedTriad => assert(ints =~= seq![0u8, 4, 8]),
            ChordQuality::DominantSeventh => assert(ints =~= seq![0u8, 4, 7, 10]),
            ChordQuality::MajorSeventh => assert(ints =~= seq![0u8, 4, 7, 11]),
            ChordQuality::MinorSeventh => assert(ints =~= seq![0u8, 3, 7, 10]),
        }
    }
    assert(ints[0] == 0) by {
        match quality {
            ChordQuality::MajorTriad => assert(ints =~= seq![0u8, 4, 7]),
            ChordQuality::MinorTriad => assert(ints =~= seq![0u8, 3, 7]),
            ChordQuality::DiminishedTriad => assert(ints =~= seq![0u8, 3, 6]),
            ChordQuality::AugmentedTriad => assert(ints =~= seq![0u8, 4, 8]),
            ChordQuality::DominantSeventh => assert(ints =~= seq![0u8, 4, 7, 10]),
            ChordQuality::MajorSeventh => assert(ints =~= seq![0u8, 4, 7, 11]),
            ChordQuality::MinorSeventh => assert(ints =~= seq![0u8, 3, 7, 10]),
        }
    }
    let a = unshifted_chord(root, quality, start_octave);
    assert(12 <= base <= 107);
    assert(forall|i: int| 0 <= i < a.len() ==> #[trigger] a[i] == base + ints[i]);
    let b = if any_above(a, LAST_KEY) { octave_down(a) } else { a };
    if any_above(a, LAST_KEY) {
        let k = choose|k: int| 0 <= k < a.len() && a[k] > LAST_KEY;
        assert(base + ints[k] > 108);
        assert(base >= 98);
        assert(forall|i: int| 0 <= i < b.len() ==> #[trigger] b[i] == base + ints[i] - 12);
        assert(!any_below(b, FIRST_KEY));
    } else {
        assert(forall|i: int| 0 <= i < b.len() ==> #[trigger] b[i] <= LAST_KEY);
        if any_below(b, FIRST_KEY) {
            let k = choose|k: int| 0 <= k < b.len() && b[k] < FIRST_KEY;
            assert(base + ints[k] < 21);
            assert(base < 21);
            assert(forall|i: int| 0 <= i < b.len() ==> #[trigger] octave_up(b)[i] == base + ints[i] + 12);
        } else {
            assert(forall|i: int| 0 <= i < b.len() ==> FIRST_KEY <= #[trigger] b[i]);
        }
    }
}

/// Every scale's interval pattern starts at the root, rises strictly and stays
/// within one octave; it has seven degrees, except the pentatonic scales
/// (five), the blues and whole-tone scales (six) and the chromatic scale (twelve).
pub proof fn lemma_scale_intervals_shape(scale: Scale)
    ensures
        scale_intervals(scale)[0] == 0,
        forall|i: int, j: int| 0 <= i < j < scale_intervals(scale).len() ==>
            #[trigger] scale_intervals(scale)[i] < #[trigger] scale_intervals(scale)[j],
        forall|i: int| 0 <= i < scale_intervals(scale).len() ==> #[trigger] scale_intervals(scale)[i] < 12,
        scale_intervals(scale).len() == match scale {
            Scale::MajorPentatonic | Scale::MinorPentatonic => 5nat,
            Scale::Blues | Scale::WholeTone => 6nat,
            Scale::Chromatic => 12nat,
            _ => 7nat,
        },
{
    let v = scale_intervals(scale);
    assert(v[0] == 0 && (forall|m: int| 0 <= m < v.len() - 1 ==> #[trigger] v[m] < v[m + 1])
        && (forall|m: int| 0 <= m < v.len() ==> #[trigger] v[m] < 12)) by {
        match scale {
            Scale::Ionian => assert(v =~= seq![0u8, 2, 4, 5, 7, 9, 11]),
            Scale::Dorian => assert(v =~= seq![0u8, 2, 3, 5, 7, 9, 10]),
            Scale::Phrygian => assert(v =~= seq![0u8, 1, 3, 5, 7, 8, 10]),
            Scale::Lydian => assert(v =~= seq![0u8, 2, 4, 6, 7, 9, 11]),
            Scale::Mixolydian => assert(v =~= seq![0u8, 2, 4, 5, 7, 9, 10]),
            Scale::NaturalMinor => assert(v =~= seq![0u8, 2, 3, 5, 7, 8, 10]),
            Scale::Locrian => assert(v =~= seq![0u8, 1, 3, 5, 6, 8, 10]),
            Scale::HarmonicMinor => assert(v =~= seq![0u8, 2, 3, 5, 7, 8, 11]),
            Scale::MelodicMinor => assert(v =~= seq![0u8, 2, 3, 5, 7, 9, 11]),
            Scale::MajorPentatonic => assert(v =~= seq![0u8, 2, 4, 7, 9]),
            Scale::MinorPentatonic => assert(v =~= seq![0u8, 3, 5, 7, 10]),
            Scale::Blues => assert(v =~= seq![0u8, 3, 5, 6, 7, 10]),
            Scale::WholeTone => assert(v =~= seq![0u8, 2, 4, 6, 8, 10]),
            Scale::Chromatic => assert(v =~= seq![0u8, 1, 2, 3, 4, 5, 6, 7, 8, 9, 10, 11]),
        }
    }
    assert forall|i: int, j: int| 0 <= i < j < v.len() implies #[trigger] v[i] < #[trigger] v[j] by {
        lemma_adjacent_increasing(v, i, j);
    }
}

proof fn lemma_adjacent_increasing(v: Seq<u8>, i: int, j: int)
    requires
        0 <= i < j < v.len(),
        forall|m: int| 0 <= m < v.len() - 1 ==> #[trigger] v[m] < v[m + 1],
    ensures
        v[i] < v[j],
    decreases j - i,
{
    if i + 1 < j {
        lemma_adjacent_increasing(v, i + 1, j);
        assert(v[i] < v[i + 1]);
    }
}

/// The list of all scales holds each of the fourteen scales exactly once,
/// and no two scales share an interval pattern.
pub proof fn lemma_all_scales_distinct()
    ensures
        Scale::ALL@ == all_scales(),
        all_scales().len() == 14,
        forall|s: Scale| all_scales().contains(s),
        forall|i: int, j: int| 0 <= i < j < 14 ==> #[trigger] all_scales()[i] != #[trigger] all_scales()[j],
        forall|i: int, j: int| 0 <= i < j < 14 ==> scale_intervals(#[trigger] all_scales()[i])
            != scale_intervals(#[trigger] all_scales()[j]),
{
    let a = all_scales();
    assert(Scale::ALL@ =~= a);
    assert forall|s: Scale| a.contains(s) by {
        match s {
            Scale::Ionian => assert(a[0] == s),
            Scale::Dorian => assert(a[1] == s),
            Scale::Phrygian => assert(a[2] == s),
            Scale::Lydian => assert(a[3] == s),
            Scale::Mixolydian => assert(a[4] == s),
            Scale::NaturalMinor => assert(a[5] == s),
            Scale::Locrian => assert(a[6] == s),
            Scale::HarmonicMinor => assert(a[7] == s),
            Scale::MelodicMinor => assert(a[8] == s),
            Scale::MajorPentatonic => assert(a[9] == s),
            Scale::MinorPentatonic => assert(a[10] == s),
            Scale::Blues => assert(a[11] == s),
            Scale::WholeTone => assert(a[12] == s),
            Scale::Chromatic => assert(a[13] == s),
        }
    }
    assert forall|i: int, j: int| 0 <= i < j < 14 implies scale_intervals(#[trigger] a[i])
        != scale_intervals(#[trigger] a[j]) by {
        let x = scale_intervals(a[i]);
        let y = scale_intervals(a[j]);
        if x.len() == y.len() {
            assert(exists|k: int| 0 <= k < x.len() && x[k] != y[k]) by {
                if x[1] != y[1] {
                    assert(x[1] != y[1]);
                } else if x[2] != y[2] {
                    assert(x[2] != y[2]);
                } else if x[3] != y[3] {
                    assert(x[3] != y[3]);
                } else if x[4] != y[4] {
                    assert(x[4] != y[4]);
                } else if x[5] != y[5] {
                    assert(x[5] != y[5]);
                } else {
                    assert(x[6] != y[6]);
                }
            }
        }
    }
}

/// The steps, in semitones, between the consecutive degrees of an interval
/// pattern, the last one climbing back to the octave.
pub open spec fn pattern_steps(v: Seq<u8>) -> Seq<int> {
    Seq::new(v.len(), |i: int| if i + 1 < v.len() { v[i + 1] - v[i] } else { 12 - v[i] })
}

/// The step pattern of the major scale: whole, whole, half, whole, whole, whole, half.
pub open spec fn major_scale_steps() -> Seq<int> {
    seq![2int, 2, 1, 2, 2, 2, 1]
}

/// A step pattern started at its `k`-th step.
pub open spec fn rotated_steps(s: Seq<int>, k: int) -> Seq<int> {
    s.subrange(k, s.len() as int) + s.subrange(0, k)
}

/// What each scale is, in music-theory terms. Every pattern starts at the
/// root. The seven church modes are the major scale's step pattern started on
/// its successive degrees (Ionian on the first, Dorian on the second, Phrygian
/// on the third, Lydian on the fourth, Mixolydian on the fifth, Aeolian, the
/// natural minor, on the sixth and Locrian on the seventh). Harmonic minor is
/// the natural minor with a raised seventh; melodic minor raises its sixth and
/// seventh. The major pentatonic scale is the major scale without its fourth
/// and seventh; the minor pentatonic is the natural minor without its second
/// and sixth; the blues scale adds the diminished fifth to the minor
/// pentatonic. The whole-tone scale climbs in six whole steps, the chromatic
/// scale in twelve half steps.
pub proof fn lemma_scale_patterns()
    ensures
        forall|scale: Scale| #[trigger] scale_intervals(scale).len() > 0 && scale_intervals(scale)[0] == 0,
        pattern_steps(scale_intervals(Scale::Ionian)) == major_scale_steps(),
        pattern_steps(scale_intervals(Scale::Dorian)) == rotated_steps(major_scale_steps(), 1),
        pattern_steps(scale_intervals(Scale::Phrygian)) == rotated_steps(major_scale_steps(), 2),
        pattern_steps(scale_intervals(Scale::Lydian)) == rotated_steps(major_scale_steps(), 3),
        pattern_steps(scale_intervals(Scale::Mixolydian)) == rotated_steps(major_scale_steps(), 4),
        pattern_steps(scale_intervals(Scale::NaturalMinor)) == rotated_steps(major_scale_steps(), 5),
        pattern_steps(scale_intervals(Scale::Locrian)) == rotated_steps(major_scale_steps(), 6),
        scale_intervals(Scale::HarmonicMinor) == scale_intervals(Scale::NaturalMinor).update(6, 11),
        scale_intervals(Scale::MelodicMinor) == scale_intervals(Scale::NaturalMinor).update(5, 9).update(6, 11),
        scale_intervals(Scale::MajorPentatonic) == ({
            let m = scale_intervals(Scale::Ionian);
            seq![m[0], m[1], m[2], m[4], m[5]]
        }),
        scale_intervals(Scale::MinorPentatonic) == ({
            let m = scale_intervals(Scale::NaturalMinor);
            seq![m[0], m[2], m[3], m[4], m[6]]
        }),
        scale_intervals(Scale::Blues) == scale_intervals(Scale::MinorPentatonic).insert(3, 6),
        scale_intervals(Scale::WholeTone).len() == 6,
        pattern_steps(scale_intervals(Scale::WholeTone)) == Seq::new(6, |i: int| 2int),
        scale_intervals(Scale::Chromatic).len() == 12,
        pattern_steps(scale_intervals(Scale::Chromatic)) == Seq::new(12, |i: int| 1int),
{
    assert forall|scale: Scale| #[trigger] scale_intervals(scale).len() > 0 && scale_intervals(scale)[0] == 0 by {
        lemma_scale_intervals_shape(scale);
    }
    let major = major_scale_steps();
    assert(pattern_steps(scale_intervals(Scale::Ionian)) =~= major);
    assert(pattern_steps(scale_intervals(Scale::Dorian)) =~= rotated_steps(major, 1));
    assert(pattern_steps(scale_intervals(Scale::Phrygian)) =~= rotated_steps(major, 2));
    assert(pattern_steps(scale_intervals(Scale::Lydian)) =~= rotated_steps(major, 3));
    assert(pattern_steps(scale_intervals(Scale::Mixolydian)) =~= rotated_steps(major, 4));
    assert(pattern_steps(scale_intervals(Scale::NaturalMinor)) =~= rotated_steps(major, 5));
    assert(pattern_steps(scale_intervals(Scale::Locrian)) =~= rotated_steps(major, 6));
    assert(scale_intervals(Scale::HarmonicMinor) =~= scale_intervals(Scale::NaturalMinor).update(6, 11));
    assert(scale_intervals(Scale::MelodicMinor) =~= scale_intervals(Scale::NaturalMinor).update(5, 9).update(6, 11));
    let m = scale_intervals(Scale::Ionian);
    assert(scale_intervals(Scale::MajorPentatonic) =~= seq![m[0], m[1], m[2], m[4], m[5]]);
    let n = scale_intervals(Scale::NaturalMinor);
    assert(scale_intervals(Scale::MinorPentatonic) =~= seq![n[0], n[2], n[3], n[4], n[6]]);
    assert(scale_intervals(Scale::Blues) =~= scale_intervals(Scale::MinorPentatonic).insert(3, 6));
    assert(pattern_steps(scale_intervals(Scale::WholeTone)) =~= Seq::new(6, |i: int| 2int));
    assert(pattern_steps(scale_intervals(Scale::Chromatic)) =~= Seq::new(12, |i: int| 1int));
}

/// The notes of a scale are its root raised by each degree of its pattern:
/// the first is the root, and consecutive notes lie as many semitones apart as
/// the pattern's steps (see `lemma_scale_patterns`).
pub proof fn lemma_scale_notes_follow_steps(root_note: u8, scale: Scale, notes: Seq<u8>)
    requires
        forall|i: int| 0 <= i < scale_intervals(scale).len() ==> root_note + #[trigger] scale_intervals(scale)[i] <= 255,
        notes == scale_intervals(scale).map_values(|interval: u8| (root_note + interval) as u8),
    ensures
        notes.len() == scale_intervals(scale).len(),
        notes[0] == root_note,
        forall|i: int| 0 <= i < notes.len() - 1 ==> #[trigger] notes[i + 1] - notes[i] == pattern_steps(scale_intervals(scale))[i],
{
    lemma_scale_intervals_shape(scale);
    let v = scale_intervals(scale);
    assert(root_note + v[0] <= 255);
    assert forall|i: int| 0 <= i < notes.len() - 1 implies #[trigger] notes[i + 1] - notes[i] == pattern_steps(v)[i] by {
        assert(root_note + v[i] <= 255);
        assert(root_note + v[i + 1] <= 255);
    }
}

/// What each chord quality is, in music-theory terms: the major triad is the
/// root, its major third and its perfect fifth; the minor triad lowers the
/// third; the diminished triad also lowers the fifth; the augmented triad
/// raises the major triad's fifth; the dominant seventh adds the minor seventh
/// to the major triad, the major seventh the major seventh, and the minor
/// seventh adds the minor seventh to the minor triad.
pub proof fn lemma_chord_patterns()
    ensures
        chord_intervals(ChordQuality::MajorTriad) == seq![0u8, 4, 7],
        chord_intervals(ChordQuality::MinorTriad) == chord_intervals(ChordQuality::MajorTriad).update(1, 3),
        chord_intervals(ChordQuality::DiminishedTriad) == chord_intervals(ChordQuality::MinorTriad).update(2, 6),
        chord_intervals(ChordQuality::AugmentedTriad) == chord_intervals(ChordQuality::MajorTriad).update(2, 8),
        chord_intervals(ChordQuality::DominantSeventh) == chord_intervals(ChordQuality::MajorTriad).push(10),
        chord_intervals(ChordQuality::MajorSeventh) == chord_intervals(ChordQuality::MajorTriad).push(11),
        chord_intervals(ChordQuality::MinorSeventh) == chord_intervals(ChordQuality::MinorTriad).push(10),
{
    assert(chord_intervals(ChordQuality::MinorTriad) =~= chord_intervals(ChordQuality::MajorTriad).update(1, 3));
    assert(chord_intervals(ChordQuality::DiminishedTriad) =~= chord_intervals(ChordQuality::MinorTriad).update(2, 6));
    assert(chord_intervals(ChordQuality::AugmentedTriad) =~= chord_intervals(ChordQuality::MajorTriad).update(2, 8));
    assert(chord_intervals(ChordQuality::DominantSeventh) =~= chord_intervals(ChordQuality::MajorTriad).push(10));
    assert(chord_intervals(ChordQuality::MajorSeventh) =~= chord_intervals(ChordQuality::MajorTriad).push(11));
    assert(chord_intervals(ChordQuality::MinorSeventh) =~= chord_intervals(ChordQuality::MinorTriad).push(10));
}

/// The notes of a chord of the quality built on the root, in root position.
pub open spec fn chord_notes_on(root: u8, q: ChordQuality) -> Set<u8> {
    chord_intervals(q).map_values(|x: u8| (root + x) as u8).to_set()
}

/// Whether an interval lies in a chord quality's pattern, written out.
spec fn in_chord(q: ChordQuality, k: int) -> bool {
    match q {
        ChordQuality::MajorTriad => k == 0 || k == 4 || k == 7,
        ChordQuality::MinorTriad => k == 0 || k == 3 || k == 7,
        ChordQuality::DiminishedTriad => k == 0 || k == 3 || k == 6,
        ChordQuality::AugmentedTriad => k == 0 || k == 4 || k == 8,
        ChordQuality::DominantSeventh => k == 0 || k == 4 || k == 7 || k == 10,
        ChordQuality::MajorSeventh => k == 0 || k == 4 || k == 7 || k == 11,
        ChordQuality::MinorSeventh => k == 0 || k == 3 || k == 7 || k == 10,
    }
}

proof fn lemma_in_chord(q: ChordQuality, k: int)
    requires
        0 <= k < 12,
    ensures
        chord_intervals(q).contains(k as u8) == in_chord(q, k),
{
    let v = chord_intervals(q);
    if in_chord(q, k) {
        let i: int = choose|i: int| 0 <= i < v.len() && v[i] == k;
        assert(v[i] == k as u8);
    }
}

/// The notes of a chord in root position lie exactly at its quality's intervals above its root.
proof fn lemma_chord_note_offsets(root: u8, q: ChordQuality, k: int)
    requires
        root <= 244,
        0 <= k < 12,
    ensures
        has_offset(chord_notes_on(root, q), root, k) == in_chord(q, k),
{
    let v = chord_intervals(q);
    let notes = v.map_values(|x: u8| (root + x) as u8);
    lemma_in_chord(q, k);
    assert forall|i: int| 0 <= i < v.len() implies #[trigger] v[i] < 12 by {
        assert(v.contains(v[i]));
        assert(in_chord(q, v[i] as int)) by {
            lemma_in_chord(q, v[i] as int);
            if v[i] >= 12 {
                assert(in_chord(q, v[i] as int) == false);
            }
        }
    }
    if has_offset(chord_notes_on(root, q), root, k) {
        let n = choose|n: u8| chord_notes_on(root, q).contains(n) && pitch_offset(n, root) == k;
        let i = choose|i: int| 0 <= i < notes.len() && notes[i] == n;
        assert(n == root + v[i]);
        assert(pitch_offset(n, root) == v[i] as int);
        assert(v.contains(v[i]));
    }
    if in_chord(q, k) {
        let i = choose|i: int| 0 <= i < v.len() && v[i] == k as u8;
        let n = notes[i];
        assert(notes.contains(n));
        assert(pitch_offset(n, root) == k);
    }
}

/// The quality recognized above the root of a chord in root position is that chord's quality.
proof fn lemma_quality_at_chord_root(root: u8, q: ChordQuality)
    requires
        root <= 244,
    ensures
        chord_quality_at(chord_notes_on(root, q), root) == Some(q),
{
    let notes = chord_notes_on(root, q);
    assert forall|q2: ChordQuality| chord_matches(notes, root, q2) == (q2 == q) by {
        if chord_matches(notes, root, q2) {
            assert forall|k: int| 0 <= k < 12 implies in_chord(q, k) == in_chord(q2, k) by {
                lemma_chord_note_offsets(root, q, k);
                lemma_in_chord(q2, k);
            }
            assert(in_chord(q, 0) == in_chord(q2, 0));
            assert(in_chord(q, 3) == in_chord(q2, 3));
            assert(in_chord(q, 4) == in_chord(q2, 4));
            assert(in_chord(q, 6) == in_chord(q2, 6));
            assert(in_chord(q, 7) == in_chord(q2, 7));
            assert(in_chord(q, 8) == in_chord(q2, 8));
            assert(in_chord(q, 10) == in_chord(q2, 10));
            assert(in_chord(q, 11) == in_chord(q2, 11));
        }
        if q2 == q {
            assert forall|k: int| 0 <= k < 12 implies (has_offset(notes, root, k) <==> chord_intervals(q2).contains(k as u8)) by {
                lemma_chord_note_offsets(root, q, k);
                lemma_in_chord(q, k);
            }
        }
    }
    let o = recognizable_qualities();
    assert(first_quality_from(notes, root, 7) is None);
    assert(first_quality_from(notes, root, 6) == if q == o[6] { Some(q) } else { None::<ChordQuality> });
    assert(first_quality_from(notes, root, 5) == if q == o[5] || q == o[6] { Some(q) } else { None::<ChordQuality> });
    assert(first_quality_from(notes, root, 4) == if q == o[4] || q == o[5] || q == o[6] { Some(q) } else { None::<ChordQuality> });
    assert(first_quality_from(notes, root, 3) == if q == o[3] || q == o[4] || q == o[5] || q == o[6] { Some(q) } else { None::<ChordQuality> });
    assert(first_quality_from(notes, root, 2) == if q == o[2] || q == o[3] || q == o[4] || q == o[5] || q == o[6] { Some(q) } else { None::<ChordQuality> });
    assert(first_quality_from(notes, root, 1) == if q != o[0] { Some(q) } else { None::<ChordQuality> });
    assert(first_quality_from(notes, root, 0) == Some(q));
}

/// Playing the notes of a chord in root position is recognized as that chord:
/// its root and its quality.
pub proof fn lemma_root_position_recognized(root: u8, q: ChordQuality)
    requires
        root <= 244,
    ensures
        recognized_chord(chord_notes_on(root, q)) == Some(Chord { root, quality: q }),
{
    let v = chord_intervals(q);
    let s = v.map_values(|x: u8| (root + x) as u8);
    let notes = chord_notes_on(root, q);
    lemma_quality_at_chord_root(root, q);
    assert forall|k: int| 0 <= k < 12 implies chord_intervals(q).contains(k as u8) == in_chord(q, k) by {
        lemma_in_chord(q, k);
    }
    assert forall|i: int| 0 <= i < v.len() implies #[trigger] v[i] < 12 && in_chord(q, v[i] as int) by {
        assert(v.contains(v[i]));
        if v[i] < 12 {
            lemma_in_chord(q, v[i] as int);
        }
    }
    assert(s.no_duplicates()) by {
        assert forall|i: int, j: int| 0 <= i < s.len() && 0 <= j < s.len() && i != j implies s[i] != s[j] by {
            match q {
                ChordQuality::MajorTriad => assert(v =~= seq![0u8, 4, 7]),
                ChordQuality::MinorTriad => assert(v =~= seq![0u8, 3, 7]),
                ChordQuality::DiminishedTriad => assert(v =~= seq![0u8, 3, 6]),
                ChordQuality::AugmentedTriad => assert(v =~= seq![0u8, 4, 8]),
                ChordQuality::DominantSeventh => assert(v =~= seq![0u8, 4, 7, 10]),
                ChordQuality::MajorSeventh => assert(v =~= seq![0u8, 4, 7, 11]),
                ChordQuality::MinorSeventh => assert(v =~= seq![0u8, 3, 7, 10]),
            }
        }
    }
    s.unique_seq_to_set();
    assert(v.len() >= 3);
    assert(s[0] == root) by {
        assert(v[0] == 0) by {
            lemma_in_chord(q, 0);
        }
    }
    assert(notes.contains(root));
    assert forall|m: u8| notes.contains(m) && m < root implies chord_quality_at(notes, m) is None by {
        let i = choose|i: int| 0 <= i < s.len() && s[i] == m;
    }
    assert(is_chord_root(notes, root));
    let n = choose|n: u8| is_chord_root(notes, n);
    if n < root {
        let i = choose|i: int| 0 <= i < s.len() && s[i] == n;
    } else if n > root {
        assert(chord_quality_at(notes, root) is None);
    }
}

/// A style that gives every harmonic function a quality.
pub open spec fn style_is_complete(style: Seq<(String, ChordQuality)>) -> bool {
    &&& style_quality(style, "dominant"@) is Some
    &&& style_quality(style, "subdominant"@) is Some
    &&& style_quality(style, "relative_minor"@) is Some
    &&& style_quality(style, "relative_major"@) is Some
    &&& style_quality(style, "dominant_of_dominant"@) is Some
}

/// The suggestions for a chord, with a style that gives every function a
/// quality: the dominant a fifth above the root, the subdominant a fourth
/// above it, then, for a chord with a major third (major triad, major seventh,
/// dominant seventh), its relative minor a major sixth above the root, whose
/// minor third up is the root again, and for any other chord its relative
/// major a minor third above the root; last the dominant of the dominant, a
/// whole step above the root. Each comes with the quality the style gives its
/// function, and every root is a pitch class.
pub proof fn lemma_suggestions_follow_the_circle_of_fifths(chord: Chord, style: Seq<(String, ChordQuality)>)
    requires
        style_is_complete(style),
    ensures
        ({
            let r = chord_suggestions(chord, style);
            let major_third = has_major_triad(chord.quality);
            &&& major_third == (chord.quality == ChordQuality::MajorTriad || chord.quality == ChordQuality::MajorSeventh
                || chord.quality == ChordQuality::DominantSeventh)
            &&& r.len() == 4
            &&& r[0] == (style_quality(style, "dominant"@)->Some_0, ((chord.root + 7) % 12) as u8)
            &&& r[1] == (style_quality(style, "subdominant"@)->Some_0, ((chord.root + 5) % 12) as u8)
            &&& major_third ==> r[2] == (style_quality(style, "relative_minor"@)->Some_0, ((chord.root + 9) % 12) as u8)
                && (r[2].1 + 3) % 12 == chord.root % 12
            &&& !major_third ==> r[2] == (style_quality(style, "relative_major"@)->Some_0, ((chord.root + 3) % 12) as u8)
            &&& r[3] == (style_quality(style, "dominant_of_dominant"@)->Some_0, ((chord.root + 2) % 12) as u8)
            &&& forall|i: int| 0 <= i < 4 ==> #[trigger] r[i].1 < 12
        }),
{
    let root = chord.root;
    lemma_has_major_triad(chord.quality);
    assert(((root + 7) % 12 + 7) % 12 == (root + 2) % 12);
    assert(((root + 9) % 12 + 3) % 12 == root % 12);
}

/// Whether a chord quality holds a major triad: a major third and a perfect
/// fifth above its root (the major triad, the major seventh and the dominant
/// seventh; not the augmented triad, whose fifth is raised).
pub open spec fn has_major_triad(q: ChordQuality) -> bool {
    chord_intervals(q).contains(4u8) && chord_intervals(q).contains(7u8)
}

proof fn lemma_has_major_triad(q: ChordQuality)
    ensures
        has_major_triad(q) == is_major_quality(q),
        has_major_triad(q) == (q == ChordQuality::MajorTriad || q == ChordQuality::MajorSeventh
            || q == ChordQuality::DominantSeventh),
{
    lemma_in_chord(q, 4);
    lemma_in_chord(q, 7);
}

/// Whatever the style, the suggestions for a chord depend on its quality only
/// through whether it has a major third: a chord with one is answered as a
/// major triad on its root, any other chord as a minor triad. One suggestion
/// comes for each of the dominant, the subdominant, the relative minor (chords
/// with a major third) or relative major (other chords), and the dominant of
/// the dominant that the style gives a quality, and each root is a pitch class.
pub proof fn lemma_suggestions_depend_on_the_third(chord: Chord, style: Seq<(String, ChordQuality)>)
    ensures
        chord_suggestions(chord, style) == chord_suggestions(
            Chord {
                quality: if has_major_triad(chord.quality) { ChordQuality::MajorTriad } else { ChordQuality::MinorTriad },
                ..chord
            },
            style,
        ),
        chord_suggestions(chord, style).len() == (if style_quality(style, "dominant"@) is Some { 1int } else { 0 })
            + (if style_quality(style, "subdominant"@) is Some { 1int } else { 0 })
            + (if has_major_triad(chord.quality) {
                if style_quality(style, "relative_minor"@) is Some { 1int } else { 0 }
            } else {
                if style_quality(style, "relative_major"@) is Some { 1int } else { 0 }
            })
            + (if style_quality(style, "dominant_of_dominant"@) is Some { 1int } else { 0 }),
        forall|i: int| 0 <= i < chord_suggestions(chord, style).len() ==> #[trigger] chord_suggestions(chord, style)[i].1 < 12,
{
    let root = chord.root;
    lemma_has_major_triad(chord.quality);
    lemma_has_major_triad(ChordQuality::MajorTriad);
    lemma_has_major_triad(ChordQuality::MinorTriad);
    let dominant = (root + 7) % 12;
    let s1 = push_if(Seq::empty(), style_quality(style, "dominant"@), dominant);
    let s2 = push_if(s1, style_quality(style, "subdominant"@), (root + 5) % 12);
    let third = if is_major_quality(chord.quality) {
        push_if(s2, style_quality(style, "relative_minor"@), (root + 9) % 12)
    } else {
        push_if(s2, style_quality(style, "relative_major"@), (root + 3) % 12)
    };
    let r = push_if(third, style_quality(style, "dominant_of_dominant"@), (dominant + 7) % 12);
    assert forall|i: int| 0 <= i < r.len() implies #[trigger] r[i].1 < 12 by {
        if i < s1.len() {
            assert(r[i] == s1[i]);
        } else if i < s2.len() {
            assert(r[i] == s2[i]);
        } else if i < third.len() {
            assert(r[i] == third[i]);
        }
    }
}

} // verus!
