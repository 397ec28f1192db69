use cypher_looper::slicing::{find_pixel_slices, find_trim_range};

#[test]
fn trim_keeps_from_first_to_last_loud_run() {
    let loud = vec![false, true, true, true, false, true, true, true, true, false];
    assert_eq!(find_trim_range(&loud), Some((1, 9)));
}

#[test]
fn trim_needs_three_loud_blocks() {
    assert_eq!(find_trim_range(&vec![true, true, false, true, true]), None);
    assert_eq!(find_trim_range(&vec![]), None);
    assert_eq!(find_trim_range(&vec![true, true, true]), Some((0, 3)));
    assert_eq!(find_trim_range(&vec![false, true, true, true]), Some((1, 4)));
}

#[test]
fn slices_end_at_silent_runs() {
    let loud = vec![false, true, true, false, false, false, true, true, false, false];
    let silent: Vec<bool> = loud.iter().map(|l| !l).collect();
    assert_eq!(find_pixel_slices(&silent, &loud, 2), vec![(1, 3), (6, 8)]);
}

#[test]
fn trailing_sound_forms_a_last_slice() {
    let loud = vec![false, true, true, false, false, true, true];
    let silent: Vec<bool> = loud.iter().map(|l| !l).collect();
    assert_eq!(find_pixel_slices(&silent, &loud, 2), vec![(1, 3), (5, 7)]);
}

#[test]
fn silence_only_gives_no_slices() {
    let loud = vec![false; 6];
    let silent = vec![true; 6];
    assert_eq!(find_pixel_slices(&silent, &loud, 2), vec![]);
}
