//! What the keyboard overview highlights in theory mode: the notes of the
//! selected scale above a single held root, or the suggestions for a held
//! chord. Both displays are sticky: they stay until a new root or a new chord
//! replaces them.

use vstd::prelude::*;
use vstd::std_specs::btree::group_btree_axioms;
use crate::looper::NUM_LOOPERS;
use crate::notes::sorted_notes;
use crate::theory::{
    build_chord_notes, chord_base, chord_notes, chord_suggestions, get_chord_suggestions,
    get_scale_notes, is_major_quality, push_if, style_quality, recognize_chord, recognized_chord,
    scale_intervals, top_interval, lemma_chord_notes_on_piano, Chord, ChordQuality, ChordStyle, Scale,
    FIRST_KEY, LAST_KEY,
};
use std::collections::BTreeSet;

verus! {

broadcast use group_btree_axioms, vstd::laws_cmp::group_laws_cmp;

/// Which theory helper the overview shows.
#[derive(Clone, Copy, Debug, PartialEq, Eq, Structural)]
pub enum TheoryMode {
    Scales,
    Chords,
}

/// How chord suggestions are laid out on the keyboard.
#[derive(Clone, Copy, Debug, PartialEq, Eq, Structural)]
pub enum ChordDisplayMode {
    Spread,
    Stacked,
}

/// The octave in which stacked suggestions are all shown.
pub const STACK_OCTAVE: u8 = 4;

/// The octave in which the suggestion at position `i` is shown: spread over
/// octaves 1, 3, 5 and 7 (so only the first four suggestions are shown), or
/// all stacked in one central octave.
pub open spec fn display_octave(mode: ChordDisplayMode, i: int) -> Option<u8> {
    match mode {
        ChordDisplayMode::Spread => if 0 <= i < 4 { Some((2 * i + 1) as u8) } else { None },
        ChordDisplayMode::Stacked => Some(STACK_OCTAVE),
    }
}

/// The notes of the sequence that lie in the MIDI range, in order, each with the tag.
pub open spec fn tagged_midi_notes(notes: Seq<u8>, tag: usize) -> Seq<(u8, usize)>
    decreases notes.len(),
{
    if notes.len() == 0 {
        Seq::empty()
    } else {
        let before = tagged_midi_notes(notes.drop_last(), tag);
        if notes.last() <= 127 {
            before.push((notes.last(), tag))
        } else {
            before
        }
    }
}

/// The highlighted notes of a list of suggestions, suggestion after suggestion,
/// each note tagged with the position of its suggestion.
pub open spec fn suggestion_display(sugg: Seq<(ChordQuality, u8)>, mode: ChordDisplayMode) -> Seq<(u8, usize)>
    decreases sugg.len(),
{
    if sugg.len() == 0 {
        Seq::empty()
    } else {
        let i = sugg.len() - 1;
        let before = suggestion_display(sugg.drop_last(), mode);
        match display_octave(mode, i) {
            Some(octave) => before + tagged_midi_notes(chord_notes(sugg[i].1, sugg[i].0, octave), i as usize),
            None => before,
        }
    }
}

/// The highlighted notes of a scale above a root, each tagged with its degree
/// modulo the number of loopers (the tag picks a looper color).
pub open spec fn scale_display(root: u8, scale: Scale) -> Seq<(u8, usize)> {
    Seq::new(
        scale_intervals(scale).len(),
        |i: int| ((root + scale_intervals(scale)[i]) as u8, (i % (NUM_LOOPERS as int)) as usize),
    )
}

/// The one note of a set of one note.
pub open spec fn single_note(notes: Set<u8>) -> u8 {
    choose|n: u8| notes.contains(n)
}

/// The highlighted notes and the latched chord notes after an update with the
/// held notes. With scales, one held note shows the scale above it and any
/// other number of held notes keeps the display. With chords, releasing all
/// keys unlatches the chord and keeps the display; held notes that are all part
/// of the latched chord keep everything; a newly recognized chord is latched
/// and its suggestions shown; anything else keeps everything.
pub open spec fn display_after(
    mode: TheoryMode,
    chord_mode: ChordDisplayMode,
    scale: Scale,
    displayed: Seq<(u8, usize)>,
    latched: Set<u8>,
    notes: Set<u8>,
    style: Seq<(String, ChordQuality)>,
) -> (Seq<(u8, usize)>, Set<u8>) {
    match mode {
        TheoryMode::Scales => {
            if notes.len() == 1 {
                (scale_display(single_note(notes), scale), latched)
            } else {
                (displayed, latched)
            }
        },
        TheoryMode::Chords => {
            if notes.is_empty() {
                (displayed, Set::empty())
            } else if notes.subset_of(latched) {
                (displayed, latched)
            } else if recognized_chord(notes) is Some {
                (suggestion_display(chord_suggestions(recognized_chord(notes)->Some_0, style), chord_mode), notes)
            } else {
                (displayed, latched)
            }
        },
    }
}

/// Every tag picks one of the looper colors.
pub open spec fn tags_in_range(displayed: Seq<(u8, usize)>) -> bool {
    forall|k: int| 0 <= k < displayed.len() ==> (#[trigger] displayed[k]).1 < NUM_LOOPERS
}

/// The held notes can be shown without a note number overflowing a byte:
/// a single held root leaves room for its scale, and a newly recognized
/// chord's root leaves room for the suggestions' roots above it.
pub open spec fn update_fits(mode: TheoryMode, scale: Scale, latched: Set<u8>, notes: Set<u8>) -> bool {
    match mode {
        TheoryMode::Scales => notes.len() == 1 ==> forall|i: int| 0 <= i < scale_intervals(scale).len()
            ==> single_note(notes) + #[trigger] scale_intervals(scale)[i] <= 255,
        TheoryMode::Chords => !notes.is_empty() && !notes.subset_of(latched) ==> match recognized_chord(notes) {
            Some(c) => c.root <= 248 && (is_major_quality(c.quality) ==> c.root <= 246),
            None => true,
        },
    }
}

/// The theory overview's state.
pub struct TheoryDisplay {
    pub mode: TheoryMode,
    pub chord_display_mode: ChordDisplayMode,
    pub selected_scale: Scale,
    /// The highlighted notes, each with the tag that picks its color.
    pub displayed_notes: Vec<(u8, usize)>,
    /// The held notes that produced the shown chord suggestions.
    pub last_recognized_chord_notes: BTreeSet<u8>,
}

proof fn lemma_push_if_small(s: Seq<(ChordQuality, u8)>, q: Option<ChordQuality>, root: int)
    requires
        0 <= root < 12,
        forall|k: int| 0 <= k < s.len() ==> #[trigger] s[k].1 < 12,
    ensures
        push_if(s, q, root).len() <= s.len() + 1,
        forall|k: int| 0 <= k < push_if(s, q, root).len() ==> #[trigger] push_if(s, q, root)[k].1 < 12,
{
}

proof fn lemma_suggestions_small(chord: Chord, style: Seq<(String, ChordQuality)>)
    ensures
        chord_suggestions(chord, style).len() <= 4,
        forall|k: int| 0 <= k < chord_suggestions(chord, style).len() ==> #[trigger] chord_suggestions(chord, style)[k].1 < 12,
{
    let root = chord.root;
    let dominant = (root + 7) % 12;
    let q1 = style_quality(style, "dominant"@);
    let q2 = style_quality(style, "subdominant"@);
    let q3 = style_quality(style, "relative_minor"@);
    let q4 = style_quality(style, "relative_major"@);
    let q5 = style_quality(style, "dominant_of_dominant"@);
    let s0 = Seq::<(ChordQuality, u8)>::empty();
    lemma_push_if_small(s0, q1, dominant);
    let s1 = push_if(s0, q1, dominant);
    lemma_push_if_small(s1, q2, (root + 5) % 12);
    let s2 = push_if(s1, q2, (root + 5) % 12);
    lemma_push_if_small(s2, q3, (root + 9) % 12);
    lemma_push_if_small(s2, q4, (root + 3) % 12);
    let s3 = if is_major_quality(chord.quality) {
        push_if(s2, q3, (root + 9) % 12)
    } else {
        push_if(s2, q4, (root + 3) % 12)
    };
    lemma_push_if_small(s3, q5, (dominant + 7) % 12);
    assert(chord_suggestions(chord, style) == push_if(s3, q5, (dominant + 7) % 12));
}

proof fn lemma_single_note(sorted: Seq<u8>, notes: Set<u8>)
    requires
        sorted.to_set() == notes,
        sorted.len() == 1,
    ensures
        single_note(notes) == sorted[0],
        notes.contains(sorted[0]),
{
    assert(sorted.contains(sorted[0]));
    assert(notes.contains(sorted[0]));
    let n = single_note(notes);
    assert(notes.contains(n));
    assert(sorted.contains(n));
}

proof fn lemma_tagged_step(notes: Seq<u8>, j: int, tag: usize)
    requires
        0 <= j < notes.len(),
    ensures
        tagged_midi_notes(notes.take(j + 1), tag) == (if notes[j] <= 127 {
            tagged_midi_notes(notes.take(j), tag).push((notes[j], tag))
        } else {
            tagged_midi_notes(notes.take(j), tag)
        }),
{
    assert(notes.take(j + 1).drop_last() =~= notes.take(j));
}

proof fn lemma_suggestion_step(sugg: Seq<(ChordQuality, u8)>, i: int, mode: ChordDisplayMode)
    requires
        0 <= i < sugg.len(),
    ensures
        suggestion_display(sugg.take(i + 1), mode) == (match display_octave(mode, i) {
            Some(octave) => suggestion_display(sugg.take(i), mode)
                + tagged_midi_notes(chord_notes(sugg[i].1, sugg[i].0, octave), i as usize),
            None => suggestion_display(sugg.take(i), mode),
        }),
{
    assert(sugg.take(i + 1).drop_last() =~= sugg.take(i));
}

fn is_subset(a: &BTreeSet<u8>, b: &BTreeSet<u8>) -> (r: bool)
    ensures
        r == a@.subset_of(b@),
{
    let sorted = sorted_notes(a);
    let mut i: usize = 0;
    while i < sorted.len()
        invariant
            i <= sorted@.len(),
            sorted@.to_set() == a@,
            forall|k: int| 0 <= k < i ==> b@.contains(#[trigger] sorted@[k]),
        decreases sorted@.len() - i,
    {
        if !b.contains(&sorted[i]) {
            assert(sorted@.contains(sorted@[i as int]));
            return false;
        }
        i = i + 1;
    }
    assert forall|n: u8| a@.contains(n) implies b@.contains(n) by {
        assert(sorted@.to_set().contains(n));
        let k = choose|k: int| 0 <= k < sorted@.len() && sorted@[k] == n;
    }
    true
}

/// The highlighted notes of a list of suggestions (see `suggestion_display`).
fn display_suggestions(sugg: &Vec<(ChordQuality, u8)>, mode: ChordDisplayMode) -> (r: Vec<(u8, usize)>)
    requires
        forall|k: int| 0 <= k < sugg@.len() ==> #[trigger] sugg@[k].1 < 12,
    ensures
        r@ == suggestion_display(sugg@, mode),
{
    let mut shown: Vec<(u8, usize)> = Vec::new();
    let mut i: usize = 0;
    while i < sugg.len()
        invariant
            i <= sugg@.len(),
            forall|k: int| 0 <= k < sugg@.len() ==> #[trigger] sugg@[k].1 < 12,
            shown@ == suggestion_display(sugg@.take(i as int), mode),
        decreases sugg@.len() - i,
    {
        let (quality, root) = sugg[i];
        let octave: Option<u8> = match mode {
            ChordDisplayMode::Spread => if i < 4 { Some((2 * i + 1) as u8) } else { None },
            ChordDisplayMode::Stacked => Some(STACK_OCTAVE),
        };
        proof {
            lemma_suggestion_step(sugg@, i as int, mode);
        }
        if let Some(octave) = octave {
            assert(root < 12);
            assert(chord_base(root, octave) + top_interval(quality) <= 255);
            let notes = build_chord_notes(root, quality, octave);
            let ghost before = shown@;
            let mut j: usize = 0;
            while j < notes.len()
                invariant
                    j <= notes@.len(),
                    shown@ == before + tagged_midi_notes(notes@.take(j as int), i),
                decreases notes@.len() - j,
            {
                proof {
                    lemma_tagged_step(notes@, j as int, i);
                }
                if notes[j] <= 127 {
                    shown.push((notes[j], i));
                }
                j = j + 1;
            }
            assert(notes@.take(j as int) =~= notes@);
        }
        i = i + 1;
    }
    assert(sugg@.take(i as int) =~= sugg@);
    shown
}

impl TheoryDisplay {
    /// The overview at start-up: scales mode (major scale), stacked chords, nothing shown or latched.
    pub fn new() -> (r: TheoryDisplay)
        ensures
            r.mode == TheoryMode::Scales,
            r.chord_display_mode == ChordDisplayMode::Stacked,
            r.selected_scale == Scale::Ionian,
            r.displayed_notes@.len() == 0,
            r.last_recognized_chord_notes@ == Set::<u8>::empty(),
    {
        TheoryDisplay {
            mode: TheoryMode::Scales,
            chord_display_mode: ChordDisplayMode::Stacked,
            selected_scale: Scale::Ionian,
            displayed_notes: Vec::new(),
            last_recognized_chord_notes: BTreeSet::new(),
        }
    }

    /// Whether the held notes can be shown (see `update_fits`).
    pub fn update_fits_notes(&self, notes: &BTreeSet<u8>) -> (r: bool)
        ensures
            r == update_fits(self.mode, self.selected_scale, self.last_recognized_chord_notes@, notes@),
    {
        match self.mode {
            TheoryMode::Scales => {
                if notes.len() != 1 {
                    return true;
                }
                let sorted = sorted_notes(notes);
                let root = sorted[0];
                proof {
                    lemma_single_note(sorted@, notes@);
                }
                let intervals = self.selected_scale.get_intervals();
                let mut i: usize = 0;
                while i < intervals.len()
                    invariant
                        i <= intervals@.len(),
                        intervals@ == scale_intervals(self.selected_scale),
                        root == single_note(notes@),
                        self.mode == TheoryMode::Scales,
                        notes@.len() == 1,
                        forall|k: int| 0 <= k < i ==> root + #[trigger] intervals@[k] <= 255,
                    decreases intervals@.len() - i,
                {
                    if intervals[i] > 255 - root {
                        assert(root + scale_intervals(self.selected_scale)[i as int] > 255);
                        return false;
                    }
                    i = i + 1;
                }
                true
            },
            TheoryMode::Chords => {
                if notes.is_empty() || is_subset(notes, &self.last_recognized_chord_notes) {
                    return true;
                }
                match recognize_chord(notes) {
                    Some(c) => {
                        let major = match c.quality {
                            ChordQuality::MajorTriad | ChordQuality::MajorSeventh | ChordQuality::DominantSeventh => true,
                            _ => false,
                        };
                        c.root <= 248 && (!major || c.root <= 246)
                    },
                    None => true,
                }
            },
        }
    }

    /// Updates the overview from the held notes (see `display_after`).
    pub fn update_theory_display(&mut self, notes: &BTreeSet<u8>, style: &ChordStyle)
        requires
            update_fits(
                old(self).mode,
                old(self).selected_scale,
                old(self).last_recognized_chord_notes@,
                notes@,
            ),
        ensures
            final(self).displayed_notes@ == display_after(
                old(self).mode,
                old(self).chord_display_mode,
                old(self).selected_scale,
                old(self).displayed_notes@,
                old(self).last_recognized_chord_notes@,
                notes@,
                style.suggestions@,
            ).0,
            final(self).last_recognized_chord_notes@ == display_after(
                old(self).mode,
                old(self).chord_display_mode,
                old(self).selected_scale,
                old(self).displayed_notes@,
                old(self).last_recognized_chord_notes@,
                notes@,
                style.suggestions@,
            ).1,
            final(self).mode == old(self).mode,
            final(self).chord_display_mode == old(self).chord_display_mode,
            final(self).selected_scale == old(self).selected_scale,
    {
        match self.mode {
            TheoryMode::Scales => {
                if notes.len() == 1 {
                    let sorted = sorted_notes(notes);
                    let root = sorted[0];
                    proof {
                        lemma_single_note(sorted@, notes@);
                    }
                    let scale_notes = get_scale_notes(root, self.selected_scale);
                    let mut shown: Vec<(u8, usize)> = Vec::new();
                    let mut i: usize = 0;
                    while i < scale_notes.len()
                        invariant
                            i <= scale_notes@.len(),
                            scale_notes@ == scale_intervals(self.selected_scale).map_values(
                                |interval: u8| (root + interval) as u8),
                            shown@ == scale_display(root, self.selected_scale).take(i as int),
                        decreases scale_notes@.len() - i,
                    {
                        shown.push((scale_notes[i], i % NUM_LOOPERS));
                        i = i + 1;
                        assert(shown@ =~= scale_display(root, self.selected_scale).take(i as int));
                    }
                    assert(shown@ =~= scale_display(root, self.selected_scale));
                    self.displayed_notes = shown;
                }
            },
            TheoryMode::Chords => {
                if notes.is_empty() {
                    self.last_recognized_chord_notes.clear();
                    return;
                }
                if is_subset(notes, &self.last_recognized_chord_notes) {
                    return;
                }
                if notes.len() >= 2 {
                    if let Some(chord) = recognize_chord(notes) {
                        assert(notes@.contains(chord.root));
                        self.last_recognized_chord_notes = notes.clone();
                        let sugg = get_chord_suggestions(&chord, style);
                        proof {
                            lemma_suggestions_small(chord, style.suggestions@);
                        }
                        self.displayed_notes = display_suggestions(&sugg, self.chord_display_mode);
                    }
                }
            },
        }
    }
}

/// Every highlighted note lies in the MIDI range.
pub open spec fn notes_on_piano(displayed: Seq<(u8, usize)>) -> bool {
    forall|k: int| 0 <= k < displayed.len() ==> FIRST_KEY <= (#[trigger] displayed[k]).0 <= LAST_KEY
}

proof fn lemma_tagged_midi_notes(notes: Seq<u8>, tag: usize)
    ensures
        forall|k: int| 0 <= k < tagged_midi_notes(notes, tag).len() ==> {
            &&& (#[trigger] tagged_midi_notes(notes, tag)[k]).1 == tag
            &&& exists|j: int| 0 <= j < notes.len() && notes[j] == tagged_midi_notes(notes, tag)[k].0
        },
    decreases notes.len(),
{
    if notes.len() > 0 {
        let before = tagged_midi_notes(notes.drop_last(), tag);
        lemma_tagged_midi_notes(notes.drop_last(), tag);
        let t = tagged_midi_notes(notes, tag);
        assert forall|k: int| 0 <= k < t.len() implies {
            &&& (#[trigger] t[k]).1 == tag
            &&& exists|j: int| 0 <= j < notes.len() && notes[j] == t[k].0
        } by {
            if k < before.len() {
                assert(t[k] == before[k]);
                let j = choose|j: int| 0 <= j < notes.drop_last().len() && notes.drop_last()[j] == before[k].0;
                assert(notes[j] == t[k].0);
            } else {
                assert(notes[notes.len() - 1] == t[k].0);
            }
        }
    }
}

proof fn lemma_suggestion_display(sugg: Seq<(ChordQuality, u8)>, mode: ChordDisplayMode)
    requires
        forall|k: int| 0 <= k < sugg.len() ==> #[trigger] sugg[k].1 < 12,
    ensures
        notes_on_piano(suggestion_display(sugg, mode)),
        forall|k: int| 0 <= k < suggestion_display(sugg, mode).len() ==> (#[trigger] suggestion_display(sugg, mode)[k]).1 < sugg.len(),
    decreases sugg.len(),
{
    if sugg.len() > 0 {
        let i = sugg.len() - 1;
        lemma_suggestion_display(sugg.drop_last(), mode);
        let before = suggestion_display(sugg.drop_last(), mode);
        if let Some(octave) = display_octave(mode, i) {
            let chord = chord_notes(sugg[i].1, sugg[i].0, octave);
            let added = tagged_midi_notes(chord, i as usize);
            lemma_tagged_midi_notes(chord, i as usize);
            lemma_chord_notes_on_piano(sugg[i].1, sugg[i].0, octave);
            let all = before + added;
            assert forall|k: int| 0 <= k < all.len() implies FIRST_KEY <= (#[trigger] all[k]).0 <= LAST_KEY && all[k].1 < sugg.len() by {
                if k >= before.len() {
                    assert(all[k] == added[k - before.len()]);
                    let j = choose|j: int| 0 <= j < chord.len() && chord[j] == added[k - before.len()].0;
                    assert(FIRST_KEY <= chord[j] <= LAST_KEY);
                } else {
                    assert(all[k] == before[k]);
                }
            }
        }
    }
}

/// Every update keeps each highlighted note tagged with one of the looper
/// colors, and in chord mode every highlighted note stays on the 88-key piano.
pub proof fn lemma_display_stays_in_range(
    mode: TheoryMode,
    chord_mode: ChordDisplayMode,
    scale: Scale,
    displayed: Seq<(u8, usize)>,
    latched: Set<u8>,
    notes: Set<u8>,
    style: Seq<(String, ChordQuality)>,
)
    requires
        tags_in_range(displayed),
    ensures
        tags_in_range(display_after(mode, chord_mode, scale, displayed, latched, notes, style).0),
        mode == TheoryMode::Chords && notes_on_piano(displayed) ==> notes_on_piano(
            display_after(mode, chord_mode, scale, displayed, latched, notes, style).0,
        ),
{
    if mode == TheoryMode::Chords && !notes.is_empty() && !notes.subset_of(latched) && recognized_chord(notes) is Some {
        let sugg = chord_suggestions(recognized_chord(notes)->Some_0, style);
        lemma_suggestions_small(recognized_chord(notes)->Some_0, style);
        lemma_suggestion_display(sugg, chord_mode);
    }
}

/// In chord mode, holding the latched chord again, or releasing some of its
/// keys, changes nothing; releasing all keys unlatches the chord and keeps the
/// suggestions shown.
pub proof fn lemma_chord_display_is_sticky(
    chord_mode: ChordDisplayMode,
    scale: Scale,
    displayed: Seq<(u8, usize)>,
    latched: Set<u8>,
    notes: Set<u8>,
    style: Seq<(String, ChordQuality)>,
)
    ensures
        notes.subset_of(latched) && !notes.is_empty() ==> display_after(
            TheoryMode::Chords, chord_mode, scale, displayed, latched, notes, style,
        ) == (displayed, latched),
        notes.is_empty() ==> display_after(
            TheoryMode::Chords, chord_mode, scale, displayed, latched, notes, style,
        ) == (displayed, Set::<u8>::empty()),
{
}

/// In scale mode, the display changes only when exactly one note is held, and
/// then shows that note's scale.
pub proof fn lemma_scale_display_is_sticky(
    chord_mode: ChordDisplayMode,
    scale: Scale,
    displayed: Seq<(u8, usize)>,
    latched: Set<u8>,
    notes: Set<u8>,
    style: Seq<(String, ChordQuality)>,
    root: u8,
)
    ensures
        notes.len() != 1 ==> display_after(
            TheoryMode::Scales, chord_mode, scale, displayed, latched, notes, style,
        ) == (displayed, latched),
        notes == set![root] ==> display_after(
            TheoryMode::Scales, chord_mode, scale, displayed, latched, notes, style,
        ) == (scale_display(root, scale), latched),
{
    if notes == set![root] {
        assert(notes.len() == 1);
        assert(notes.contains(root));
        assert(notes.contains(single_note(notes)));
        assert(single_note(notes) == root);
    }
}

} // verus!
