use cypher_looper::pads::{PadPlayback, SamplerPads, NUM_PADS};

#[test]
fn new_pads_are_silent() {
    let pads = SamplerPads::new();
    assert_eq!(pads.pads.len(), NUM_PADS);
    assert!(pads.pads.iter().all(|p| *p == PadPlayback { audio_len: 0, is_playing: false, playhead: 0 }));
    assert_eq!(pads.loaded(), vec![false; NUM_PADS]);
}

#[test]
fn a_triggered_pad_plays_its_sample_once() {
    let mut pads = SamplerPads::new();
    pads.load(2, 3);
    pads.trigger(2);
    assert!(pads.pads[2].is_playing);
    let mut sounded = 0;
    for _ in 0..5 {
        if pads.step(true)[2] {
            sounded += 1;
        }
    }
    assert_eq!(sounded, 3);
    assert!(!pads.pads[2].is_playing);
    assert_eq!(pads.pads[2].playhead, 3);
}

#[test]
fn retriggering_restarts_from_the_top() {
    let mut pads = SamplerPads::new();
    pads.load(0, 10);
    pads.trigger(0);
    pads.step(true);
    pads.step(true);
    assert_eq!(pads.pads[0].playhead, 2);
    pads.trigger(0);
    assert_eq!(pads.pads[0].playhead, 0);
}

#[test]
fn empty_or_missing_pads_do_not_play() {
    let mut pads = SamplerPads::new();
    pads.trigger(1);
    pads.trigger(99);
    assert!(!pads.pads[1].is_playing);
    assert_eq!(pads.step(true), vec![false; NUM_PADS]);
}

#[test]
fn an_inactive_sampler_holds_its_pads() {
    let mut pads = SamplerPads::new();
    pads.load(4, 2);
    pads.trigger(4);
    assert_eq!(pads.step(false)[4], false);
    assert_eq!(pads.pads[4].playhead, 0);
    assert!(pads.step(true)[4]);
}

#[test]
fn clearing_a_pad_stops_it() {
    let mut pads = SamplerPads::new();
    pads.load(5, 4);
    pads.trigger(5);
    pads.clear(5);
    assert!(!pads.pads[5].is_playing);
    assert_eq!(pads.loaded()[5], false);
}
