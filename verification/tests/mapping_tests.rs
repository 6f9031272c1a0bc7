use trackmix::mapping::ChannelMapping;
use trackmix::speakers::{Speakers, CENTER, FRONT_LEFT, FRONT_RIGHT, SUBWOOFER};

#[test]
fn default_input_zero_reaches_an_output_speaker() {
    // Over the whole supported grid of channel counts, input channel 0 is
    // always routed to at least one speaker within the output range.
    for ic in 1u16..=11 {
        for oc in 1u16..=11 {
            let m = ChannelMapping::default(ic, oc);
            let entry = m.get(0).expect("input 0 must be mapped");
            let mut reaches = false;
            for s in 0..oc {
                if entry.contains(s) {
                    reaches = true;
                }
            }
            assert!(reaches, "default({ic}, {oc}) leaves input 0 unheard");
        }
    }
}

#[test]
fn default_mono_to_six_is_full_broadcast() {
    let m = ChannelMapping::default(1, 6);
    let entry = m.get(0).expect("input 0 must be mapped");
    assert_eq!(entry.bits, 0b111111);
    for i in 1..11 {
        assert!(m.get(i).is_none());
    }
}

#[test]
fn default_six_to_two_is_identity_over_outputs() {
    let m = ChannelMapping::default(6, 2);
    assert_eq!(m.get(0).unwrap().bits, 0b1);
    assert_eq!(m.get(1).unwrap().bits, 0b10);
    for i in 2..11 {
        assert!(m.get(i).is_none(), "input {i} should be unmapped");
    }
}

#[test]
fn default_upmix_spreads_and_leaves_input_one_unmapped() {
    // 2 inputs, 6 outputs: input 0 spreads over all outputs except center
    // and subwoofer; inputs 2..6 map one to one; input 1 stays unmapped.
    let m = ChannelMapping::default(2, 6);
    assert_eq!(m.get(0).unwrap().bits, 0b110011);
    assert!(m.get(1).is_none());
    for c in 2..6u16 {
        assert_eq!(m.get(c as usize).unwrap().bits, 1 << c);
    }
    for i in 6..11 {
        assert!(m.get(i).is_none());
    }
}

#[test]
fn identity_maps_each_input_to_its_own_speaker() {
    let m = ChannelMapping::identity(3);
    for i in 0..3u16 {
        assert_eq!(m.get(i as usize).unwrap().bits, 1 << i);
    }
    for i in 3..11 {
        assert!(m.get(i).is_none());
    }
}

#[test]
fn empty_mapping_has_no_entries() {
    let m = ChannelMapping::empty();
    for i in 0..11 {
        assert!(m.get(i).is_none());
    }
}

#[test]
fn from_array_mapping_without_base_only_holds_overrides() {
    let pairs = vec![(Speakers::from_index(FRONT_LEFT), Speakers::from_index(FRONT_RIGHT))];
    let m = ChannelMapping::from_array_mapping(&pairs, 2, false);
    assert_eq!(m.get(0).unwrap().bits, 0b10);
    for i in 1..11 {
        assert!(m.get(i).is_none());
    }
}

#[test]
fn from_array_mapping_keeps_default_and_later_pairs_win() {
    let pairs = vec![
        (Speakers::from_index(FRONT_RIGHT), Speakers::from_index(CENTER)),
        (Speakers::from_index(FRONT_RIGHT), Speakers::from_index(SUBWOOFER)),
    ];
    let m = ChannelMapping::from_array_mapping(&pairs, 2, true);
    // Base is default(2, 2) == identity over 2 channels.
    assert_eq!(m.get(0).unwrap().bits, 0b1);
    // Input 1 was overridden twice; the later pair wins.
    assert_eq!(m.get(1).unwrap().bits, 0b1000);
    for i in 2..11 {
        assert!(m.get(i).is_none());
    }
}

#[test]
fn all_to_builds_prefix_masks() {
    assert_eq!(Speakers::all_to(0).bits, 0);
    assert_eq!(Speakers::all_to(1).bits, 0b1);
    assert_eq!(Speakers::all_to(6).bits, 0b111111);
    assert_eq!(Speakers::all_to(11).bits, 0x7ff);
    assert_eq!(Speakers::all_to(16).bits, 0x7ff);
}

#[test]
fn as_u16_reports_lowest_ordinal() {
    assert_eq!(Speakers::from_index(5).as_u16(), 5);
    assert_eq!(Speakers::empty().as_u16(), 0);
    let s = Speakers::from_index(7).union(Speakers::from_index(3));
    assert_eq!(s.as_u16(), 3);
}

#[test]
fn speaker_set_operations() {
    let a = Speakers::from_index(0).union(Speakers::from_index(2));
    let b = Speakers::from_index(2).union(Speakers::from_index(4));
    assert_eq!(a.union(b).bits, 0b10101);
    assert_eq!(a.intersection(b).bits, 0b100);
    assert_eq!(a.without(2).bits, 0b1);
    assert!(a.contains(0) && a.contains(2) && !a.contains(1));
    assert!(Speakers::empty().is_empty());
    assert!(!a.is_empty());
    assert_eq!(Speakers::MAX_COUNT, 11);
}
