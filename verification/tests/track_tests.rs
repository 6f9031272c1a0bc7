use trackmix::id::Id;
use trackmix::sample::Sample;
use trackmix::track::Track;

fn asset(name: &str, channels: u16, rate: u32, frames: usize) -> Sample {
    Sample::new(
        Id(1),
        name.to_string(),
        channels,
        rate,
        vec![0i64; frames * channels as usize],
    )
}

#[test]
fn scaled_boundaries_resolve_like_the_two_asset_scenario() {
    // Track = [A: 44100 Hz, 44100 frames], [B: 22050 Hz, 22050 frames],
    // device rate 48000 Hz. scaled(A) = 44100 * 48000 / 44100 = 48000
    // frames; scaled(B) = 22050 * 48000 / 22050 = 48000 frames: each asset
    // lasts one second, and one second at the device rate is 48000 frames.
    let track = Track::new(
        "t".to_string(),
        vec![asset("a", 1, 44100, 44100), asset("b", 1, 22050, 22050)],
    );
    assert_eq!(track.sample_at_sample_index(0, 48000), Some((0, 0)));
    assert_eq!(track.sample_at_sample_index(47999, 48000), Some((0, 47999)));
    assert_eq!(track.sample_at_sample_index(48000, 48000), Some((1, 0)));
    assert_eq!(track.sample_at_sample_index(95999, 48000), Some((1, 47999)));
    assert_eq!(track.sample_at_sample_index(96000, 48000), None);
    // The local offset at the end of asset A maps back to native frame
    // 47999 * 44100 / 48000 = 44099, the asset's last frame.
    assert_eq!(47999u64 * 44100 / 48000, 44099);
}

#[test]
fn lookup_is_monotone_and_gap_free_over_the_track() {
    let track = Track::new(
        "t".to_string(),
        vec![asset("a", 1, 100, 10), asset("b", 1, 100, 5), asset("c", 1, 50, 3)],
    );
    // Scaled lengths at 200 Hz: 20, 10, 12; total 42.
    let mut last = 0usize;
    for idx in 0..42u64 {
        let (i, loc) = track
            .sample_at_sample_index(idx, 200)
            .expect("every index below the total must resolve");
        assert!(i >= last, "asset position must not decrease");
        last = i;
        let start = [0u64, 20, 30][i];
        assert_eq!(loc, idx - start, "local offset must be gap-free");
    }
    assert_eq!(track.sample_at_sample_index(42, 200), None);
}

#[test]
fn zero_length_assets_are_never_selected() {
    let track = Track::new(
        "t".to_string(),
        vec![asset("empty", 1, 100, 0), asset("b", 1, 100, 2)],
    );
    assert_eq!(track.sample_at_sample_index(0, 100), Some((1, 0)));
    assert_eq!(track.sample_at_sample_index(1, 100), Some((1, 1)));
    assert_eq!(track.sample_at_sample_index(2, 100), None);
}

#[test]
fn len_time_and_cached_times() {
    let track = Track::new(
        "t".to_string(),
        vec![asset("a", 2, 44100, 44100), asset("b", 1, 1000, 500)],
    );
    assert_eq!(track.samples[0].len(), 44100);
    assert_eq!(track.samples[0].len_time(), 1_000_000);
    assert_eq!(track.samples[1].len_time(), 500_000);
    assert_eq!(track.cached_times, vec![0, 1_000_000]);
}

#[test]
fn calculate_times_rebuilds_the_cache() {
    let mut track = Track::new("t".to_string(), vec![asset("a", 1, 1000, 250)]);
    track.samples.push(asset("b", 1, 1000, 1000));
    track.calculate_times();
    assert_eq!(track.cached_times, vec![0, 250_000]);
}

#[test]
fn sample_at_time_uses_open_intervals() {
    // One second then half a second of audio; boundaries hit nothing.
    let track = Track::new(
        "t".to_string(),
        vec![asset("a", 1, 1000, 1000), asset("b", 1, 1000, 500)],
    );
    assert_eq!(track.sample_at_time(0), None);
    assert_eq!(track.sample_at_time(500_000), Some(0));
    assert_eq!(track.sample_at_time(1_000_000), None);
    assert_eq!(track.sample_at_time(1_200_000), Some(1));
    assert_eq!(track.sample_at_time(1_500_000), None);
    assert_eq!(track.sample_at_time(2_000_000), None);
}

#[test]
fn time_rel_left_is_checked_subtraction() {
    let mut track = Track::new("t".to_string(), vec![]);
    track.view_start = 100;
    assert_eq!(track.time_rel_left(250), Some(150));
    assert_eq!(track.time_rel_left(100), Some(0));
    assert_eq!(track.time_rel_left(99), None);
}

#[test]
fn new_track_defaults() {
    let track = Track::new("song".to_string(), vec![asset("a", 1, 100, 1)]);
    assert_eq!(track.name, "song");
    assert_eq!(track.view_start, 0);
    assert_eq!(track.view_end, 20_000_000);
    assert_eq!(track.sample_at(0).name, "a");
}
