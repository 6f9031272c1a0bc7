use trackmix::id::{Id, IDManager};
use trackmix::playback::write_track;
use trackmix::resampler::Resampler;
use trackmix::sample::Sample;
use trackmix::state::State;
use trackmix::track::Track;
use trackmix::util::SampleRange;

#[test]
fn native_path_copies_frames_and_advances_cursors() {
    let track = Track::new(
        "t".to_string(),
        vec![Sample::new(Id(1), "a".to_string(), 2, 48000, vec![1, 2, 3, 4, 5, 6])],
    );
    let resampler = Resampler::new_for_track(&track, 48000);
    let mut current = 0usize;
    let mut absolute = 0usize;
    let mut out = vec![0i64; 4];
    write_track(&track, &resampler, &mut current, &mut absolute, 2, 48000, &mut out);
    assert_eq!(out, vec![1, 2, 3, 4]);
    assert_eq!((current, absolute), (2, 2));
    // The next callback picks up where the first left off.
    let mut out = vec![0i64; 4];
    write_track(&track, &resampler, &mut current, &mut absolute, 2, 48000, &mut out);
    assert_eq!(out, vec![5, 6, 0, 0]);
    assert_eq!((current, absolute), (4, 4));
}

#[test]
fn an_exhausted_track_leaves_silence_but_absolute_time_advances() {
    let track = Track::new(
        "t".to_string(),
        vec![Sample::new(Id(1), "a".to_string(), 1, 48000, vec![1, 2])],
    );
    let resampler = Resampler::new_for_track(&track, 48000);
    let mut current = 2usize;
    let mut absolute = 10usize;
    let mut out = vec![0i64; 4];
    write_track(&track, &resampler, &mut current, &mut absolute, 2, 48000, &mut out);
    assert_eq!(out, vec![0, 0, 0, 0]);
    assert_eq!(current, 2, "track-relative cursor must stay put");
    assert_eq!(absolute, 12, "absolute cursor advances uniformly");
}

#[test]
fn resampled_path_mixes_the_slot_buffer_through_the_default_mapping() {
    // A mono asset at half the device rate: its slot is filled by the
    // background conversion, and the callback reads the converted frames,
    // broadcasting them to both output channels.
    let track = Track::new(
        "t".to_string(),
        vec![Sample::new(Id(1), "a".to_string(), 1, 22050, vec![100, 200])],
    );
    let mut resampler = Resampler::new_for_track(&track, 44100);
    let slot = resampler.slots[0].as_mut().expect("rate differs, slot expected");
    let complete = slot.commit(&vec![vec![7, 8, 9, 10]], 2);
    assert!(complete);
    let mut current = 0usize;
    let mut absolute = 0usize;
    let mut out = vec![0i64; 8];
    write_track(&track, &resampler, &mut current, &mut absolute, 2, 44100, &mut out);
    assert_eq!(out, vec![7, 7, 8, 8, 9, 9, 10, 10]);
    assert_eq!((current, absolute), (4, 4));
}

#[test]
fn resampled_path_underrun_yields_silence_for_the_missing_span() {
    let track = Track::new(
        "t".to_string(),
        vec![Sample::new(Id(1), "a".to_string(), 1, 22050, vec![100, 200])],
    );
    let mut resampler = Resampler::new_for_track(&track, 44100);
    let slot = resampler.slots[0].as_mut().unwrap();
    // Only one converted frame is available; the callback wants two.
    slot.commit(&vec![vec![7]], 1);
    let mut current = 0usize;
    let mut absolute = 0usize;
    let mut out = vec![0i64; 4];
    write_track(&track, &resampler, &mut current, &mut absolute, 2, 44100, &mut out);
    assert_eq!(out, vec![7, 7, 0, 0]);
}

#[test]
fn duration_played_needs_both_timestamps_and_playing() {
    let mut state = State { playing: true, play_time: Some(1000), current_time: Some(3500) };
    assert_eq!(state.duration_played(), Some(2500));
    state.playing = false;
    assert_eq!(state.duration_played(), None);
    state.playing = true;
    state.current_time = None;
    assert_eq!(state.duration_played(), None);
    state.current_time = Some(500);
    assert_eq!(state.duration_played(), None, "time before start counts as not playing yet");
}

#[test]
fn id_manager_hands_out_sequential_ids() {
    let mut mgr = IDManager::new(40);
    assert_eq!(mgr.gen_id(), Id(40));
    assert_eq!(mgr.gen_id(), Id(41));
    let recorded = mgr.gen_insert_zero();
    assert_eq!(recorded, Id(42));
    assert_eq!(mgr.id_mappings, vec![Id(42)]);
    assert!(Id::null().is_null());
    assert!(!recorded.is_null());
}

#[test]
fn sample_range_length() {
    let r = SampleRange { min: 3, max: 10 };
    assert_eq!(r.len(), 7);
    let empty = SampleRange { min: 4, max: 4 };
    assert_eq!(empty.len(), 0);
}
