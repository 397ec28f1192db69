use cypher_looper::looper::{LooperState, NUM_LOOPERS};
use cypher_looper::transport::{BlockCursor, MixerTrack, Switches, TransportCore, TransportState};

/// Runs `n` samples through the core the way the audio callback does.
fn run_samples(core: &mut TransportCore, n: usize, input_loud: bool) -> Vec<bool> {
    let mut cursor = core.begin_block();
    let mut refreshed = vec![false; NUM_LOOPERS];
    for _ in 0..n {
        let wrap = core.on_cycle_wrap(&cursor);
        for (r, w) in refreshed.iter_mut().zip(wrap) {
            *r = *r || w;
        }
        core.step_loopers(&cursor, input_loud);
        core.advance_transport(&mut cursor);
    }
    core.end_block(&cursor);
    refreshed
}

fn record_first_loop(core: &mut TransportCore, len: usize) {
    core.looper_press(0);
    run_samples(core, len + 1, true);
    core.looper_press(0);
    let mut cursor = core.begin_block();
    let id = core.first_loop_candidate(&cursor).unwrap();
    let recorded = core.loopers[id].audio_len;
    core.establish_first_loop(&mut cursor, id, recorded);
    core.end_block(&cursor);
}

#[test]
fn new_core_is_empty_and_playing() {
    let core = TransportCore::new(true);
    assert_eq!(core.loopers.len(), NUM_LOOPERS);
    assert_eq!(core.mixer.len(), NUM_LOOPERS);
    assert!(core.loopers.iter().all(|l| l.state == LooperState::Empty && l.audio_len == 0));
    assert_eq!(core.transport.len_samples, 0);
    assert_eq!(core.transport.state, TransportState::Playing);
    assert!(core.switches.limiter_is_active);
    assert!(core.all_silent());
}

#[test]
fn arming_is_exclusive_before_the_first_loop() {
    let mut core = TransportCore::new(true);
    core.looper_press(0);
    assert_eq!(core.loopers[0].state, LooperState::Armed);
    core.looper_press(3);
    assert_eq!(core.loopers[3].state, LooperState::Armed);
    assert_eq!(core.loopers[0].state, LooperState::Empty);
    core.looper_press(3);
    assert_eq!(core.loopers[3].state, LooperState::Empty);
}

#[test]
fn armed_track_waits_for_loud_input() {
    let mut core = TransportCore::new(true);
    core.looper_press(0);
    run_samples(&mut core, 10, false);
    assert_eq!(core.loopers[0].state, LooperState::Armed);
    run_samples(&mut core, 1, true);
    assert_eq!(core.loopers[0].state, LooperState::Recording);
    assert_eq!(core.loopers[0].cycles_recorded, 1);
}

#[test]
fn first_loop_sets_the_transport_length() {
    let mut core = TransportCore::new(true);
    record_first_loop(&mut core, 100);
    assert_eq!(core.loopers[0].state, LooperState::Playing);
    assert_eq!(core.loopers[0].audio_len, 100);
    assert_eq!(core.loopers[0].length_in_cycles, 1);
    assert_eq!(core.transport.len_samples, 100);
}

#[test]
fn playing_loop_advances_and_wraps_its_playhead() {
    let mut core = TransportCore::new(true);
    record_first_loop(&mut core, 100);
    run_samples(&mut core, 130, false);
    assert_eq!(core.loopers[0].playhead, 30);
    assert_eq!(core.transport.playhead, 30);
}

#[test]
fn second_loop_records_whole_cycles() {
    let mut core = TransportCore::new(true);
    record_first_loop(&mut core, 100);
    core.looper_press(1);
    assert_eq!(core.loopers[1].state, LooperState::Armed);
    assert!(core.loopers[1].pending_command);
    run_samples(&mut core, 100, false);
    assert_eq!(core.loopers[1].state, LooperState::Recording);
    run_samples(&mut core, 150, false);
    core.looper_press(1);
    run_samples(&mut core, 60, false);
    assert_eq!(core.loopers[1].state, LooperState::Playing);
    assert_eq!(core.loopers[1].audio_len, 300);
    assert_eq!(core.loopers[1].length_in_cycles, 3);
    assert_eq!(core.loopers[1].playhead, 10);
}

#[test]
fn press_toggles_overdub_on_a_playing_loop() {
    let mut core = TransportCore::new(true);
    record_first_loop(&mut core, 100);
    core.looper_press(0);
    assert_eq!(core.loopers[0].state, LooperState::Overdubbing);
    core.looper_press(0);
    assert_eq!(core.loopers[0].state, LooperState::Playing);
}

#[test]
fn overdub_refreshes_waveform_after_enough_samples() {
    let mut core = TransportCore::new(true);
    record_first_loop(&mut core, 100);
    core.looper_press(0);
    let mut cursor = core.begin_block();
    for _ in 0..300 {
        core.on_cycle_wrap(&cursor);
        core.step_loopers(&cursor, false);
        core.advance_transport(&mut cursor);
    }
    let refresh = core.end_block(&cursor);
    assert!(refresh[0]);
    assert!(!refresh[1]);
    assert_eq!(core.loopers[0].samples_since_waveform_update, 0);
}

#[test]
fn clearing_the_last_loop_resets_the_transport() {
    let mut core = TransportCore::new(true);
    record_first_loop(&mut core, 100);
    core.clear_looper(0);
    assert_eq!(core.loopers[0].state, LooperState::Empty);
    assert_eq!(core.transport.len_samples, 0);
    assert!(core.all_silent());
}

#[test]
fn clear_all_silences_every_track() {
    let mut core = TransportCore::new(true);
    record_first_loop(&mut core, 100);
    core.toggle_mixer_mute(2);
    core.clear_all(false);
    assert!(core.all_silent());
    assert_eq!(core.transport.len_samples, 0);
    assert_eq!(core.transport.state, TransportState::Paused);
    assert!(core.mixer.iter().all(|m| !m.is_muted && !m.is_soloed));
}

#[test]
fn stop_rewinds_and_play_resumes() {
    let mut core = TransportCore::new(true);
    record_first_loop(&mut core, 100);
    run_samples(&mut core, 40, false);
    core.stop_transport();
    assert_eq!(core.transport.state, TransportState::Paused);
    assert_eq!(core.transport.playhead, 0);
    assert_eq!(core.loopers[0].playhead, 0);
    run_samples(&mut core, 10, false);
    assert_eq!(core.loopers[0].playhead, 0);
    core.toggle_transport();
    assert_eq!(core.transport.state, TransportState::Playing);
    assert!(core.transport.is_playing);
}

#[test]
fn mute_all_twice_restores_unmuted_mixer() {
    let mut core = TransportCore::new(true);
    core.toggle_mute_all();
    assert!(core.is_all_muted());
    core.toggle_mute_all();
    assert!(core.mixer.iter().all(|m| !m.is_muted));
}

#[test]
fn mute_all_mutes_when_only_some_are_muted() {
    let mut core = TransportCore::new(true);
    core.toggle_mixer_mute(0);
    core.toggle_mute_all();
    assert!(core.is_all_muted());
}

#[test]
fn solo_wins_over_mute() {
    let mut core = TransportCore::new(true);
    assert!(core.is_track_audible(4));
    core.toggle_mixer_mute(4);
    assert!(!core.is_track_audible(4));
    core.toggle_mixer_solo(2);
    assert!(core.is_track_audible(2));
    assert!(!core.is_track_audible(3));
    core.toggle_mixer_mute(2);
    assert!(core.is_track_audible(2));
}

#[test]
fn mixer_index_past_the_end_changes_nothing() {
    let mut core = TransportCore::new(true);
    core.toggle_mixer_mute(NUM_LOOPERS);
    core.toggle_mixer_solo(99);
    assert!(core.mixer.iter().all(|m| *m == MixerTrack { is_muted: false, is_soloed: false }));
}

#[test]
fn instruments_exclude_each_other() {
    let mut core = TransportCore::new(true);
    core.toggle_synth();
    assert!(core.switches.synth_is_active);
    core.toggle_sampler();
    assert!(core.switches.sampler_is_active);
    assert!(!core.switches.synth_is_active);
    core.toggle_sampler();
    assert!(!core.switches.sampler_is_active);
    assert!(!core.switches.synth_is_active);
}

#[test]
fn load_loop_places_audio_on_a_track() {
    let mut core = TransportCore::new(true);
    core.set_transport_len(480);
    assert!(core.load_loop(5, 480));
    assert_eq!(core.loopers[5].state, LooperState::Playing);
    assert_eq!(core.loopers[5].audio_len, 480);
    assert!(!core.load_loop(NUM_LOOPERS, 480));
}

#[test]
fn set_switches_and_cursor() {
    let mut core = TransportCore::new(false);
    let sw = Switches {
        synth_is_active: true,
        sampler_is_active: false,
        audio_input_is_armed: true,
        audio_input_is_monitored: false,
        limiter_is_active: false,
        should_toggle_record: true,
    };
    core.set_switches(sw);
    assert_eq!(core.switches, sw);
    core.set_transport_len(64);
    assert_eq!(core.begin_block(), BlockCursor { transport_len: 64, transport_playhead: 0 });
}

#[test]
fn input_limiter_and_record_switches() {
    let mut core = TransportCore::new(true);
    core.toggle_audio_input_arm();
    core.toggle_audio_input_monitoring();
    assert!(core.switches.audio_input_is_armed && core.switches.audio_input_is_monitored);
    core.toggle_audio_input_arm();
    assert!(!core.switches.audio_input_is_armed);
    core.toggle_limiter();
    assert!(!core.switches.limiter_is_active);
    core.request_record_toggle();
    assert!(core.switches.should_toggle_record);
}

#[test]
fn activating_an_instrument_leaves_the_other() {
    let mut core = TransportCore::new(true);
    core.set_synth_active(true);
    core.set_sampler_active(true);
    assert!(core.switches.synth_is_active && core.switches.sampler_is_active);
    core.set_synth_active(false);
    assert!(!core.switches.synth_is_active && core.switches.sampler_is_active);
}

/// Runs samples with `process_sample`, giving a first loop its recorded length.
fn run_whole_samples(core: &mut TransportCore, loud: &[bool]) -> Vec<bool> {
    let mut cursor = core.begin_block();
    let mut refreshed = vec![false; NUM_LOOPERS];
    for &l in loud {
        let first_len = match core.first_loop_candidate(&cursor) {
            Some(id) => core.loopers[id].audio_len,
            None => 0,
        };
        let wrap = core.process_sample(&mut cursor, l, first_len);
        for (r, w) in refreshed.iter_mut().zip(wrap) {
            *r = *r || w;
        }
    }
    core.end_block(&cursor);
    refreshed
}

#[test]
fn a_sample_establishes_the_first_loop_before_the_tracks_step() {
    let mut core = TransportCore::new(true);
    core.looper_press(0);
    // The first loud sample starts the recording; the next three are recorded.
    run_whole_samples(&mut core, &[true, true, true, true]);
    assert_eq!(core.loopers[0].state, LooperState::Recording);
    assert_eq!(core.loopers[0].audio_len, 3);
    core.looper_press(0);
    run_whole_samples(&mut core, &[false]);
    assert_eq!(core.transport.len_samples, 3);
    assert_eq!(core.loopers[0].state, LooperState::Playing);
    assert_eq!(core.loopers[0].audio_len, 3);
    assert_eq!(core.loopers[0].length_in_cycles, 1);
    // The loop's first sample was played in the same sample: both playheads moved on.
    assert_eq!(core.loopers[0].playhead, 1);
    assert_eq!(core.transport.playhead, 1);
}

#[test]
fn a_rounded_first_loop_takes_the_given_length() {
    let mut core = TransportCore::new(true);
    core.looper_press(2);
    run_whole_samples(&mut core, &[true; 10]);
    core.looper_press(2);
    let mut cursor = core.begin_block();
    core.process_sample(&mut cursor, false, 8);
    core.end_block(&cursor);
    assert_eq!(core.transport.len_samples, 8);
    assert_eq!(core.loopers[2].audio_len, 8);
    assert_eq!(core.loopers[2].playhead, 1);
}

#[test]
fn a_cycle_boundary_comes_before_the_step_of_its_sample() {
    let mut core = TransportCore::new(true);
    core.looper_press(0);
    run_whole_samples(&mut core, &[true, true, true, true]);
    core.looper_press(0);
    run_whole_samples(&mut core, &[false]);
    // A second track waits for the next cycle to record.
    core.looper_press(1);
    assert_eq!(core.loopers[1].state, LooperState::Armed);
    assert!(core.loopers[1].pending_command);
    run_whole_samples(&mut core, &[false, false]);
    assert_eq!(core.loopers[1].state, LooperState::Armed);
    assert_eq!(core.transport.playhead, 0);
    // The boundary sample starts the recording, then the track records the sample.
    let refreshed = run_whole_samples(&mut core, &[false]);
    assert_eq!(core.loopers[1].state, LooperState::Recording);
    assert!(!core.loopers[1].pending_command);
    assert_eq!(core.loopers[1].cycles_recorded, 1);
    assert_eq!(core.loopers[1].audio_len, 1);
    assert!(!refreshed[1]);
    assert_eq!(core.transport.playhead, 1);
    // A boundary refreshes an overdubbing track's waveform.
    core.looper_press(0);
    assert_eq!(core.loopers[0].state, LooperState::Overdubbing);
    let refreshed = run_whole_samples(&mut core, &[false, false, false]);
    assert!(refreshed[0]);
    assert_eq!(core.loopers[0].state, LooperState::Overdubbing);
}

/// Runs a block with `process_samples`, establishing a first loop at its recorded length.
fn run_block(core: &mut TransportCore, loud: &Vec<bool>) -> Vec<bool> {
    let mut cursor = core.begin_block();
    let mut refreshed = vec![false; NUM_LOOPERS];
    let mut from = 0;
    loop {
        let (stop, wraps) = core.process_samples(&mut cursor, loud, from);
        for (r, w) in refreshed.iter_mut().zip(wraps) {
            *r = *r || w;
        }
        if stop == loud.len() {
            break;
        }
        let id = core.first_loop_candidate(&cursor).unwrap();
        let len = core.loopers[id].audio_len;
        let wraps = core.process_sample(&mut cursor, loud[stop], len);
        for (r, w) in refreshed.iter_mut().zip(wraps) {
            *r = *r || w;
        }
        from = stop + 1;
    }
    core.end_block(&cursor);
    refreshed
}

#[test]
fn a_block_stops_where_the_first_loop_is_due() {
    let mut core = TransportCore::new(true);
    core.looper_press(0);
    let mut cursor = core.begin_block();
    let loud = vec![true; 5];
    assert_eq!(core.process_samples(&mut cursor, &loud, 0).0, 5);
    assert_eq!(core.loopers[0].audio_len, 4);
    core.looper_press(0);
    let (stop, _) = core.process_samples(&mut cursor, &loud, 2);
    assert_eq!(stop, 2);
    assert_eq!(core.loopers[0].state, LooperState::Recording);
    assert_eq!(core.first_loop_candidate(&cursor), Some(0));
}

#[test]
fn whole_blocks_match_sample_by_sample_processing() {
    let pattern: Vec<bool> = (0..40).map(|i| i % 7 != 3).collect();
    let mut by_block = TransportCore::new(true);
    let mut by_sample = TransportCore::new(true);
    for core in [&mut by_block, &mut by_sample] {
        core.looper_press(1);
    }
    let first = pattern[..10].to_vec();
    run_block(&mut by_block, &first);
    run_whole_samples(&mut by_sample, &first);
    for core in [&mut by_block, &mut by_sample] {
        core.looper_press(1);
        core.looper_press(4);
    }
    let rest = pattern[10..].to_vec();
    let a = run_block(&mut by_block, &rest);
    let b = run_whole_samples(&mut by_sample, &rest);
    assert_eq!(a, b);
    assert_eq!(by_block.loopers, by_sample.loopers);
    assert_eq!(by_block.transport, by_sample.transport);
    assert_eq!(by_block.transport.len_samples, 9);
    assert_eq!(by_block.loopers[1].state, LooperState::Playing);
}
