use trackmix::id::Id;
use trackmix::resampler::{Resampler, ResamplerInner};
use trackmix::sample::Sample;
use trackmix::track::Track;
use trackmix::util::strip_samples;

#[test]
fn conversion_steps_grow_the_buffer_then_become_noops() {
    // One channel, three source frames. A stand-in converter doubles the
    // chunk values; what matters here is the slot protocol: monotonic
    // growth, completion once the source is consumed, and idempotence of
    // every later step.
    let mut slot = ResamplerInner::new(vec![vec![1i64, 2, 3]]);
    assert!(!slot.is_complete());

    let chunk = slot.next_input_chunk(2);
    assert_eq!(chunk, vec![vec![1, 2]]);
    let converted: Vec<Vec<i64>> = chunk.iter().map(|c| c.iter().map(|v| v * 2).collect()).collect();
    let complete = slot.commit(&converted, 2);
    assert!(!complete);
    assert_eq!(slot.buffered_frames(), 2);
    assert_eq!(slot.buffer(), &vec![vec![2, 4]]);

    // The tail chunk is zero-padded so the converter can flush.
    let chunk = slot.next_input_chunk(2);
    assert_eq!(chunk, vec![vec![3, 0]]);
    let complete = slot.commit(&vec![vec![6, 0]], 2);
    assert!(complete);
    assert!(slot.is_complete());
    assert_eq!(slot.buffer(), &vec![vec![2, 4, 6, 0]]);

    // After completion the slot is immutable and stays complete.
    let complete = slot.commit(&vec![vec![99]], 2);
    assert!(complete);
    assert!(slot.is_complete());
    assert_eq!(slot.buffer(), &vec![vec![2, 4, 6, 0]]);
}

#[test]
fn backpressure_skips_conversion_when_enough_is_buffered() {
    let mut slot = ResamplerInner::new(vec![vec![1i64, 2, 3, 4]]);
    // Nothing buffered yet: work is due for any nonzero span.
    assert!(slot.should_resample(0, 1));
    slot.commit(&vec![vec![10, 20]], 2);
    // Two frames buffered: a reader at offset 0 wanting two frames is
    // satisfied; wanting three is not, nor is a reader at offset 1 wanting
    // two.
    assert!(!slot.should_resample(0, 2));
    assert!(slot.should_resample(0, 3));
    assert!(slot.should_resample(1, 2));
    // A complete slot never asks for work.
    slot.commit(&vec![vec![30, 40]], 2);
    assert!(slot.is_complete());
    assert!(!slot.should_resample(0, 1000));
}

#[test]
fn an_empty_source_is_complete_from_the_start() {
    let slot = ResamplerInner::new(vec![vec![]]);
    assert!(slot.is_complete());
    assert_eq!(slot.buffered_frames(), 0);
}

#[test]
fn chunks_split_channels_and_pad_with_silence() {
    // Two interleaved channels.
    let slot = ResamplerInner::new(strip_samples(&vec![1i64, -1, 2, -2, 3, -3], 2));
    assert_eq!(slot.channels(), 2);
    let chunk = slot.next_input_chunk(5);
    assert_eq!(chunk, vec![vec![1, 2, 3, 0, 0], vec![-1, -2, -3, 0, 0]]);
}

#[test]
fn slots_exist_exactly_for_assets_off_the_device_rate() {
    let track = Track::new(
        "t".to_string(),
        vec![
            Sample::new(Id(1), "a".to_string(), 1, 22050, vec![5, 6]),
            Sample::new(Id(2), "b".to_string(), 2, 48000, vec![1, 2, 3, 4]),
        ],
    );
    let resampler = Resampler::new_for_track(&track, 48000);
    assert_eq!(resampler.len(), 2);
    let slot = resampler.slot(0).as_ref().expect("asset off the device rate needs a slot");
    assert_eq!(slot.source, vec![vec![5, 6]]);
    assert!(resampler.slot(1).is_none());
}

#[test]
fn strip_samples_splits_interleaved_channels() {
    let planar = strip_samples(&vec![0i64, 10, 1, 11, 2, 12], 2);
    assert_eq!(planar, vec![vec![0, 1, 2], vec![10, 11, 12]]);
    let mono = strip_samples(&vec![7i64, 8], 1);
    assert_eq!(mono, vec![vec![7, 8]]);
}
