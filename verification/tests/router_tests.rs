use trackmix::mapping::ChannelMapping;
use trackmix::router::{channel_router, channel_router_split_input};
use trackmix::speakers::Speakers;

#[test]
fn mapped_identity_reproduces_each_channel_exactly() {
    // Identity round-trip: with identity(2) on 2 inputs and 2 outputs, each
    // input frame lands exactly in the output channel of the same ordinal.
    let input = vec![vec![1i64, 2], vec![3, 4]];
    let mut out = vec![0i64; 4];
    let mapping = Some(ChannelMapping::identity(2));
    channel_router_split_input(2, 2, &input, &mut out, 0, &mapping);
    assert_eq!(out, vec![1, 3, 2, 4]);
}

#[test]
fn mapped_identity_accumulates_into_prepopulated_output() {
    let input = vec![vec![1i64, 2], vec![3, 4]];
    let mut out = vec![10i64, 20, 30, 40];
    let mapping = Some(ChannelMapping::identity(2));
    channel_router_split_input(2, 2, &input, &mut out, 0, &mapping);
    assert_eq!(out, vec![11, 23, 32, 44]);
}

#[test]
fn mapped_mono_broadcast_sums_into_every_channel() {
    // Mono broadcast: with one input channel and no explicit mapping, the
    // default heuristic feeds the single sample to every output channel,
    // added to whatever the buffer held.
    let input = vec![vec![5i64, 6]];
    let mut out = vec![1i64, 2, 3, 4];
    channel_router_split_input(1, 2, &input, &mut out, 0, &None);
    assert_eq!(out, vec![6, 7, 9, 10]);
}

#[test]
fn mapped_router_fans_one_input_to_many_outputs() {
    let input = vec![vec![7i64]];
    let mut out = vec![0i64; 3];
    let both = Speakers::from_index(0).union(Speakers::from_index(2));
    let pairs = vec![(Speakers::from_index(0), both)];
    let mapping = Some(ChannelMapping::from_array_mapping(&pairs, 1, false));
    channel_router_split_input(1, 3, &input, &mut out, 0, &mapping);
    assert_eq!(out, vec![7, 0, 7]);
}

#[test]
fn mapped_router_respects_input_offset_and_underrun() {
    let input = vec![vec![1i64, 2, 3]];
    let mut out = vec![0i64; 4];
    // Offset 2: frame 0 reads sample 3; frame 1 has no data and adds nothing.
    channel_router_split_input(1, 2, &input, &mut out, 2, &None);
    assert_eq!(out, vec![3, 3, 0, 0]);
}

#[test]
fn mapped_router_ignores_speakers_beyond_output_range() {
    let input = vec![vec![9i64]];
    let mut out = vec![0i64; 1];
    let far = Speakers::from_index(0).union(Speakers::from_index(5));
    let pairs = vec![(Speakers::from_index(0), far)];
    let mapping = Some(ChannelMapping::from_array_mapping(&pairs, 1, false));
    channel_router_split_input(1, 1, &input, &mut out, 0, &mapping);
    assert_eq!(out, vec![9]);
}

#[test]
fn implicit_mono_broadcast_overwrites_every_channel() {
    let input = vec![7i64, 8];
    let mut out = vec![100i64; 4];
    channel_router(1, 2, &input, &mut out, 0);
    assert_eq!(out, vec![7, 7, 8, 8]);
}

#[test]
fn implicit_copy_truncates_extra_input_channels() {
    // 4 input channels down to 2: each output frame keeps channels 0 and 1.
    let input = vec![1i64, 2, 3, 4, 5, 6, 7, 8];
    let mut out = vec![0i64; 4];
    channel_router(4, 2, &input, &mut out, 0);
    assert_eq!(out, vec![1, 2, 5, 6]);
}

#[test]
fn implicit_equal_channels_is_a_straight_copy() {
    let input = vec![1i64, 2, 3, 4];
    let mut out = vec![0i64; 4];
    channel_router(2, 2, &input, &mut out, 0);
    assert_eq!(out, vec![1, 2, 3, 4]);
}

#[test]
fn implicit_upmix_repeats_front_pair_from_channel_four() {
    // 2 inputs to 6 outputs: channels 0-1 copy through, channels 2-3 are
    // left untouched (the input has no third or fourth channel), and the
    // pair from channel 4 repeats the front pair.
    let input = vec![1i64, 2];
    let mut out = vec![0i64; 6];
    channel_router(2, 6, &input, &mut out, 0);
    assert_eq!(out, vec![1, 2, 0, 0, 1, 2]);
}

#[test]
fn implicit_upmix_copies_present_center_channel() {
    // 3 inputs to 5 outputs: channel 2 exists and copies through; channel 3
    // does not; channel 4 starts a pair whose partner would be channel 5,
    // which does not exist, so it stays untouched.
    let input = vec![1i64, 2, 3];
    let mut out = vec![0i64; 5];
    channel_router(3, 5, &input, &mut out, 0);
    assert_eq!(out, vec![1, 2, 3, 0, 0]);
}

#[test]
fn implicit_router_respects_offset_and_underrun() {
    let input = vec![1i64, 2, 3, 4];
    let mut out = vec![9i64; 4];
    // ic == oc == 2, offset 1: frame 0 reads input frame 1; frame 1 is past
    // the end of the source and leaves the buffer untouched.
    channel_router(2, 2, &input, &mut out, 1);
    assert_eq!(out, vec![3, 4, 9, 9]);
}
