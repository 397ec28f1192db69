use cypher_looper::theory::{
    build_chord_notes, get_chord_suggestions, get_scale_notes, recognize_chord, Chord, ChordQuality,
    ChordStyle, Scale,
};
use std::collections::BTreeSet;

fn note_set(ns: &[u8]) -> BTreeSet<u8> {
    ns.iter().copied().collect()
}

fn classic_style() -> ChordStyle {
    ChordStyle {
        name: String::from("Classic"),
        suggestions: vec![
            (String::from("dominant"), ChordQuality::MajorTriad),
            (String::from("subdominant"), ChordQuality::MajorTriad),
            (String::from("relative_minor"), ChordQuality::MinorTriad),
            (String::from("relative_major"), ChordQuality::MajorTriad),
            (String::from("dominant_of_dominant"), ChordQuality::DominantSeventh),
        ],
    }
}

#[test]
fn major_scale_from_middle_c() {
    assert_eq!(get_scale_notes(60, Scale::Ionian), vec![60, 62, 64, 65, 67, 69, 71]);
}

#[test]
fn blues_and_chromatic_scales() {
    assert_eq!(get_scale_notes(57, Scale::Blues), vec![57, 60, 62, 63, 64, 67]);
    assert_eq!(get_scale_notes(0, Scale::Chromatic), (0..12).collect::<Vec<u8>>());
}

#[test]
fn scale_and_chord_intervals() {
    assert_eq!(Scale::Dorian.get_intervals(), &[0, 2, 3, 5, 7, 9, 10]);
    assert_eq!(ChordQuality::MajorSeventh.get_intervals(), &[0, 4, 7, 11]);
}

#[test]
fn scale_labels() {
    assert_eq!(Scale::Ionian.label(), "Major (Ionian)");
    assert_eq!(Scale::NaturalMinor.label(), "Minor (Aeolian)");
    assert_eq!(Scale::WholeTone.label(), "Whole Tone");
}

#[test]
fn recognizes_root_position_triad() {
    assert_eq!(
        recognize_chord(&note_set(&[60, 64, 67])),
        Some(Chord { root: 60, quality: ChordQuality::MajorTriad })
    );
}

#[test]
fn recognizes_inversion_by_its_root() {
    assert_eq!(
        recognize_chord(&note_set(&[64, 67, 72])),
        Some(Chord { root: 72, quality: ChordQuality::MajorTriad })
    );
}

#[test]
fn recognizes_minor_and_seventh_chords() {
    assert_eq!(
        recognize_chord(&note_set(&[57, 60, 64])),
        Some(Chord { root: 57, quality: ChordQuality::MinorTriad })
    );
    assert_eq!(
        recognize_chord(&note_set(&[60, 64, 67, 70])),
        Some(Chord { root: 60, quality: ChordQuality::DominantSeventh })
    );
}

#[test]
fn no_chord_from_two_notes_or_a_cluster() {
    assert_eq!(recognize_chord(&note_set(&[60, 64])), None);
    assert_eq!(recognize_chord(&note_set(&[60, 61, 62])), None);
    assert_eq!(recognize_chord(&note_set(&[])), None);
}

#[test]
fn chord_notes_in_an_octave() {
    assert_eq!(build_chord_notes(0, ChordQuality::MajorTriad, 4), vec![60, 64, 67]);
    assert_eq!(build_chord_notes(62, ChordQuality::MinorSeventh, 4), vec![62, 65, 69, 72]);
    assert_eq!(build_chord_notes(9, ChordQuality::MinorTriad, 0), vec![21, 24, 28]);
}

#[test]
fn chord_above_the_keyboard_moves_down() {
    assert_eq!(build_chord_notes(7, ChordQuality::MajorTriad, 7), vec![91, 95, 98]);
}

#[test]
fn chord_below_the_keyboard_moves_up() {
    assert_eq!(build_chord_notes(0, ChordQuality::MajorTriad, 0), vec![24, 28, 31]);
    assert_eq!(build_chord_notes(0, ChordQuality::MajorTriad, 1), vec![24, 28, 31]);
}

#[test]
fn suggestions_for_a_major_chord() {
    let chord = Chord { root: 60, quality: ChordQuality::MajorTriad };
    assert_eq!(
        get_chord_suggestions(&chord, &classic_style()),
        vec![
            (ChordQuality::MajorTriad, 7),
            (ChordQuality::MajorTriad, 5),
            (ChordQuality::MinorTriad, 9),
            (ChordQuality::DominantSeventh, 2),
        ]
    );
}

#[test]
fn suggestions_for_a_minor_chord() {
    let chord = Chord { root: 57, quality: ChordQuality::MinorTriad };
    assert_eq!(
        get_chord_suggestions(&chord, &classic_style()),
        vec![
            (ChordQuality::MajorTriad, 4),
            (ChordQuality::MajorTriad, 2),
            (ChordQuality::MajorTriad, 0),
            (ChordQuality::DominantSeventh, 11),
        ]
    );
}

#[test]
fn suggestions_skip_functions_the_style_lacks() {
    let style = ChordStyle {
        name: String::from("Sparse"),
        suggestions: vec![(String::from("subdominant"), ChordQuality::MinorTriad)],
    };
    let chord = Chord { root: 62, quality: ChordQuality::MajorTriad };
    assert_eq!(get_chord_suggestions(&chord, &style), vec![(ChordQuality::MinorTriad, 7)]);
    assert_eq!(get_chord_suggestions(&chord, &ChordStyle::default()), vec![]);
}

#[test]
fn style_uses_first_entry_for_a_function() {
    let style = ChordStyle {
        name: String::from("Twice"),
        suggestions: vec![
            (String::from("dominant"), ChordQuality::DominantSeventh),
            (String::from("dominant"), ChordQuality::MinorTriad),
        ],
    };
    assert_eq!(style.quality_for("dominant"), Some(ChordQuality::DominantSeventh));
    assert_eq!(style.quality_for("subdominant"), None);
}

#[test]
fn chords_in_octaves_zero_to_seven_lie_on_the_piano() {
    for root in 0u8..12 {
        for octave in 0u8..=7 {
            let notes = build_chord_notes(root, ChordQuality::MajorSeventh, octave);
            assert!(notes.iter().all(|n| (21..=108).contains(n)), "{} {}", root, octave);
        }
    }
}

#[test]
fn all_scales_are_listed_once_with_distinct_patterns() {
    assert_eq!(Scale::ALL.len(), 14);
    for (i, a) in Scale::ALL.iter().enumerate() {
        for b in &Scale::ALL[i + 1..] {
            assert_ne!(a, b);
            assert_ne!(a.get_intervals(), b.get_intervals());
        }
        let iv = a.get_intervals();
        assert_eq!(iv[0], 0);
        assert!(iv.windows(2).all(|w| w[0] < w[1]) && iv.iter().all(|&x| x < 12));
    }
    assert_eq!(Scale::ALL[0], Scale::Ionian);
    assert_eq!(Scale::ALL[13], Scale::Chromatic);
}

#[test]
fn setting_a_quality_replaces_or_adds_the_entry() {
    let mut style = ChordStyle::default();
    style.set_quality(String::from("dominant"), ChordQuality::MajorTriad);
    style.set_quality(String::from("subdominant"), ChordQuality::MinorTriad);
    style.set_quality(String::from("dominant"), ChordQuality::DominantSeventh);
    assert_eq!(style.suggestions.len(), 2);
    assert_eq!(style.quality_for("dominant"), Some(ChordQuality::DominantSeventh));
    assert_eq!(style.quality_for("subdominant"), Some(ChordQuality::MinorTriad));
}

#[test]
fn style_entries_are_kept_in_name_order() {
    let mut style = ChordStyle::default();
    style.set_quality(String::from("subdominant"), ChordQuality::MajorTriad);
    style.set_quality(String::from("dominant"), ChordQuality::DominantSeventh);
    style.set_quality(String::from("relative_minor"), ChordQuality::MinorTriad);
    style.set_quality(String::from("dominant"), ChordQuality::MajorTriad);
    let names: Vec<&str> = style.suggestions.iter().map(|(n, _)| n.as_str()).collect();
    assert_eq!(names, vec!["dominant", "relative_minor", "subdominant"]);
    assert_eq!(style.quality_for("dominant"), Some(ChordQuality::MajorTriad));
}
