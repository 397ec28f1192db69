use cypher_looper::theory::{ChordQuality, ChordStyle, Scale};
use cypher_looper::theory_display::{ChordDisplayMode, TheoryDisplay, TheoryMode};
use std::collections::BTreeSet;

fn held(ns: &[u8]) -> BTreeSet<u8> {
    ns.iter().copied().collect()
}

fn display_style() -> ChordStyle {
    ChordStyle {
        name: String::from("Classic"),
        suggestions: vec![
            (String::from("dominant"), ChordQuality::MajorTriad),
            (String::from("subdominant"), ChordQuality::MajorTriad),
            (String::from("relative_minor"), ChordQuality::MinorTriad),
            (String::from("relative_major"), ChordQuality::MajorTriad),
            (String::from("dominant_of_dominant"), ChordQuality::DominantSeventh),
        ],
    }
}

#[test]
fn starts_in_scale_mode_with_nothing_shown() {
    let d = TheoryDisplay::new();
    assert_eq!(d.mode, TheoryMode::Scales);
    assert_eq!(d.chord_display_mode, ChordDisplayMode::Stacked);
    assert_eq!(d.selected_scale, Scale::Ionian);
    assert!(d.displayed_notes.is_empty());
    assert!(d.last_recognized_chord_notes.is_empty());
}

#[test]
fn one_held_note_shows_its_scale() {
    let mut d = TheoryDisplay::new();
    d.update_theory_display(&held(&[60]), &display_style());
    assert_eq!(
        d.displayed_notes,
        vec![(60, 0), (62, 1), (64, 2), (65, 3), (67, 4), (69, 5), (71, 6)]
    );
}

#[test]
fn scale_display_is_sticky() {
    let mut d = TheoryDisplay::new();
    d.update_theory_display(&held(&[60]), &display_style());
    let shown = d.displayed_notes.clone();
    d.update_theory_display(&held(&[60, 64]), &display_style());
    assert_eq!(d.displayed_notes, shown);
    d.update_theory_display(&held(&[]), &display_style());
    assert_eq!(d.displayed_notes, shown);
    d.update_theory_display(&held(&[62]), &display_style());
    assert_eq!(d.displayed_notes[0], (62, 0));
}

#[test]
fn chromatic_scale_tags_stay_below_looper_count() {
    let mut d = TheoryDisplay::new();
    d.selected_scale = Scale::Chromatic;
    d.update_theory_display(&held(&[100]), &display_style());
    assert_eq!(d.displayed_notes.len(), 12);
    assert!(d.displayed_notes.iter().all(|&(_, tag)| tag < 12));
    assert_eq!(d.displayed_notes[11], (111, 11));
}

#[test]
fn stacked_chord_suggestions() {
    let mut d = TheoryDisplay::new();
    d.mode = TheoryMode::Chords;
    d.update_theory_display(&held(&[60, 64, 67]), &display_style());
    assert_eq!(
        d.displayed_notes,
        vec![
            (67, 0), (71, 0), (74, 0),
            (65, 1), (69, 1), (72, 1),
            (69, 2), (72, 2), (76, 2),
            (62, 3), (66, 3), (69, 3), (72, 3),
        ]
    );
    assert_eq!(d.last_recognized_chord_notes, held(&[60, 64, 67]));
}

#[test]
fn spread_chord_suggestions_use_odd_octaves() {
    let mut d = TheoryDisplay::new();
    d.mode = TheoryMode::Chords;
    d.chord_display_mode = ChordDisplayMode::Spread;
    d.update_theory_display(&held(&[60, 64, 67]), &display_style());
    assert_eq!(
        d.displayed_notes,
        vec![
            (31, 0), (35, 0), (38, 0),
            (53, 1), (57, 1), (60, 1),
            (81, 2), (84, 2), (88, 2),
            (98, 3), (102, 3), (105, 3), (108, 3),
        ]
    );
}

#[test]
fn releasing_keys_of_the_chord_keeps_the_display() {
    let mut d = TheoryDisplay::new();
    d.mode = TheoryMode::Chords;
    d.update_theory_display(&held(&[60, 64, 67]), &display_style());
    let shown = d.displayed_notes.clone();
    d.update_theory_display(&held(&[60, 64]), &display_style());
    assert_eq!(d.displayed_notes, shown);
    assert_eq!(d.last_recognized_chord_notes, held(&[60, 64, 67]));
    d.update_theory_display(&held(&[]), &display_style());
    assert_eq!(d.displayed_notes, shown);
    assert!(d.last_recognized_chord_notes.is_empty());
}

#[test]
fn unrecognized_notes_keep_the_display() {
    let mut d = TheoryDisplay::new();
    d.mode = TheoryMode::Chords;
    d.update_theory_display(&held(&[60, 64, 67]), &display_style());
    let shown = d.displayed_notes.clone();
    d.update_theory_display(&held(&[60, 61, 62]), &display_style());
    assert_eq!(d.displayed_notes, shown);
    assert_eq!(d.last_recognized_chord_notes, held(&[60, 64, 67]));
}

#[test]
fn a_new_chord_replaces_the_suggestions() {
    let mut d = TheoryDisplay::new();
    d.mode = TheoryMode::Chords;
    d.update_theory_display(&held(&[60, 64, 67]), &display_style());
    d.update_theory_display(&held(&[57, 60, 64]), &display_style());
    assert_eq!(d.last_recognized_chord_notes, held(&[57, 60, 64]));
    assert_eq!(d.displayed_notes[0], (64, 0));
}

#[test]
fn suggestions_stay_on_the_piano() {
    for mode in [ChordDisplayMode::Spread, ChordDisplayMode::Stacked] {
        for root in 21u8..=120 {
            let mut d = TheoryDisplay::new();
            d.mode = TheoryMode::Chords;
            d.chord_display_mode = mode;
            d.update_theory_display(&held(&[root, root + 4, root + 7]), &display_style());
            assert!(!d.displayed_notes.is_empty());
            assert!(d.displayed_notes.iter().all(|&(n, tag)| (21..=108).contains(&n) && tag < 4));
        }
    }
}

#[test]
fn notes_too_high_for_their_scale_or_suggestions() {
    let mut d = TheoryDisplay::new();
    assert!(d.update_fits_notes(&held(&[60])));
    assert!(d.update_fits_notes(&held(&[244])));
    assert!(!d.update_fits_notes(&held(&[245])));
    assert!(d.update_fits_notes(&held(&[250, 251])));
    d.mode = TheoryMode::Chords;
    assert!(!d.update_fits_notes(&held(&[247, 251, 254])));
    assert!(d.update_fits_notes(&held(&[246, 250, 253])));
    assert!(d.update_fits_notes(&held(&[248, 251, 255])));
    assert!(d.update_fits_notes(&held(&[])));
}

#[test]
fn high_root_still_shows_its_scale() {
    let mut d = TheoryDisplay::new();
    d.update_theory_display(&held(&[200]), &display_style());
    assert_eq!(d.displayed_notes[6], (211, 6));
}
