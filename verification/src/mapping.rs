//! Per-input-channel routing tables.
//!
//! A `ChannelMapping` assigns to each input channel ordinal an optional
//! speaker set; an empty entry means "no explicit routing defined for this
//! input channel". Mappings are built by `identity`, by the rate-driven
//! `default` heuristic, or by layering explicit overrides on a base.

use vstd::prelude::*;
use crate::speakers::{low_mask, spk, Speakers, CENTER, SUBWOOFER};

verus! {

/// The entry the identity mapping holds at input channel `i`:
/// the singleton set of speaker `i` for `i < channels`, nothing beyond.
pub open spec fn ident_entry(channels: u16, i: int) -> Option<Speakers> {
    if 0 <= i < channels && i < 11 {
        Some(spk(1u16 << (i as u16)))
    } else {
        None
    }
}

/// The entry the default heuristic holds at input channel `i`.
///
/// With one input channel, input 0 broadcasts to every speaker below the
/// output channel count. With at least as many inputs as outputs, the
/// mapping is the identity over the outputs. Otherwise (upmix), input 0
/// spreads over all output speakers except center and subwoofer, and inputs
/// `2 .. outputChannels` map one to one; input channel 1 is deliberately
/// left unmapped, preserving the established (asymmetric) behaviour of this
/// heuristic.
pub open spec fn default_entry(input_channels: u16, output_channels: u16, i: int) -> Option<
    Speakers,
> {
    if input_channels == 1 {
        if i == 0 {
            Some(spk(low_mask(output_channels)))
        } else {
            None
        }
    } else if input_channels >= output_channels {
        ident_entry(output_channels, i)
    } else {
        if i == 0 {
            Some(spk(low_mask(output_channels) & 0xfff3u16))
        } else if 2 <= i < output_channels {
            Some(spk(1u16 << (i as u16)))
        } else {
            None
        }
    }
}

/// The mapping that a list of overrides, applied in order on top of `base`,
/// holds at input channel `i`; a later pair for the same channel wins.
pub open spec fn apply_overrides(
    base: Seq<Option<Speakers>>,
    pairs: Seq<(Speakers, Speakers)>,
    i: int,
) -> Option<Speakers>
    decreases pairs.len(),
{
    if pairs.len() == 0 {
        base[i]
    } else {
        let p = pairs.last();
        if p.0.ord() == i {
            Some(p.1)
        } else {
            apply_overrides(base, pairs.drop_last(), i)
        }
    }
}

/// Maps input channels to speakers.
/// Up to `Speakers::MAX_COUNT` input channels can be mapped.
#[derive(Clone, Debug)]
pub struct ChannelMapping {
    /// Entry `i` routes input channel `i`; `None` leaves it unrouted.
    pub slots: Vec<Option<Speakers>>,
}

impl ChannelMapping {
    /// A mapping always has one entry per speaker ordinal, each well-formed.
    pub open spec fn wf(self) -> bool {
        &&& self.slots@.len() == 11
        &&& forall|i: int|
            0 <= i < 11 ==> (#[trigger] self.slots@[i] matches Some(s) ==> s.wf())
    }

    /// The entry for input channel `index`.
    pub fn get(&self, index: usize) -> (r: Option<Speakers>)
        requires
            index < self.slots@.len(),
        ensures
            r == self.slots@[index as int],
    {
        self.slots[index]
    }

    /// Replace the entry for input channel `index`.
    pub fn set(&mut self, index: usize, entry: Option<Speakers>)
        requires
            index < old(self).slots@.len(),
        ensures
            final(self).slots@ == old(self).slots@.update(index as int, entry),
    {
        self.slots.set(index, entry);
    }

    /// No inputs are mapped to any speakers.
    pub fn empty() -> (r: ChannelMapping)
        ensures
            r.wf(),
            forall|i: int| 0 <= i < 11 ==> r.slots@[i] is None,
    {
        let mut slots: Vec<Option<Speakers>> = Vec::new();
        let mut i: usize = 0;
        while i < 11
            invariant
                i <= 11,
                slots@.len() == i,
                forall|j: int| 0 <= j < i ==> slots@[j] is None,
            decreases 11 - i,
        {
            slots.push(None);
            i = i + 1;
        }
        ChannelMapping { slots }
    }

    /// Returns a channel mapping with everything mapped one to one:
    /// input channel `i` feeds exactly the speaker with ordinal `i`,
    /// for every `i` below `channels`.
    pub fn identity(channels: u16) -> (r: ChannelMapping)
        ensures
            r.wf(),
            forall|i: int| 0 <= i < 11 ==> r.slots@[i] == ident_entry(channels, i),
    {
        let mut slots: Vec<Option<Speakers>> = Vec::new();
        let mut i: u16 = 0;
        while i < 11
            invariant
                i <= 11,
                slots@.len() == i as int,
                forall|j: int| 0 <= j < i ==> slots@[j] == ident_entry(channels, j),
                forall|j: int| 0 <= j < i ==> (#[trigger] slots@[j] matches Some(s) ==> s.wf()),
            decreases 11 - i,
        {
            if i < channels {
                let s = Speakers::from_index(i);
                slots.push(Some(s));
            } else {
                slots.push(None);
            }
            i = i + 1;
        }
        ChannelMapping { slots }
    }

    /// Construct the default smart mapping for the given input and output
    /// channel counts; entry `i` equals `default_entry(input_channels,
    /// output_channels, i)`.
    ///
    /// With one input channel, that channel reaches every output speaker.
    /// With at least as many inputs as outputs, channels map one to one.
    /// Otherwise input 0 spreads over every output speaker except center and
    /// subwoofer, and inputs from 2 up map one to one; input channel 1 stays
    /// unmapped, which keeps this heuristic's long-standing asymmetry.
    pub fn default(input_channels: u16, output_channels: u16) -> (r: ChannelMapping)
        requires
            1 <= input_channels,
            1 <= output_channels <= 11,
        ensures
            r.wf(),
            forall|i: int|
                0 <= i < 11 ==> r.slots@[i] == default_entry(
                    input_channels,
                    output_channels,
                    i,
                ),
    {
        if input_channels == 1 {
            let mut m = ChannelMapping::empty();
            let broadcast_set = Speakers::all_to(output_channels);
            m.set(0, Some(broadcast_set));
            proof {
                assert(broadcast_set == spk(low_mask(output_channels)));
            }
            m
        } else if input_channels >= output_channels {
            ChannelMapping::identity(output_channels)
        } else {
            let mut m = ChannelMapping::empty();
            let spread = Speakers::all_to(output_channels).without(CENTER).without(SUBWOOFER);
            proof {
                let lm = low_mask(output_channels);
                assert((lm & !(1u16 << 2u16)) & !(1u16 << 3u16) == lm & 0xfff3u16)
                    by (bit_vector);
                assert(spread == spk(lm & 0xfff3u16));
            }
            m.set(0, Some(spread));
            let mut c: u16 = 2;
            while c < output_channels
                invariant
                    2 <= c <= output_channels,
                    output_channels <= 11,
                    m.slots@.len() == 11,
                    m.slots@[0] == Some(spk(low_mask(output_channels) & 0xfff3u16)),
                    forall|j: int| 2 <= j < c ==> m.slots@[j] == Some(spk(1u16 << (j as u16))),
                    forall|j: int| 1 <= j < 11 && !(2 <= j < c) ==> m.slots@[j] is None,
                    forall|j: int|
                        0 <= j < 11 ==> (#[trigger] m.slots@[j] matches Some(s) ==> s.wf()),
                decreases output_channels - c,
            {
                let s = Speakers::from_index(c);
                m.set(c as usize, Some(s));
                c = c + 1;
            }
            m
        }
    }

    /// Construct a channel mapping from a list of overrides.
    ///
    /// Each pair maps the input channel designated by its first element
    /// (by that set's lowest speaker ordinal) to the speaker set in its
    /// second element; later pairs win. Channels not overridden keep the
    /// default mapping for `input_channel_count` channels when
    /// `keep_default` is set, and stay unmapped otherwise.
    pub fn from_array_mapping(
        mapping: &Vec<(Speakers, Speakers)>,
        input_channel_count: u16,
        keep_default: bool,
    ) -> (r: ChannelMapping)
        requires
            keep_default ==> 1 <= input_channel_count <= 11,
            forall|k: int|
                0 <= k < mapping@.len() ==> (#[trigger] mapping@[k]).0.wf() && mapping@[k].1.wf(),
        ensures
            r.wf(),
            forall|i: int|
                0 <= i < 11 ==> r.slots@[i] == apply_overrides(
                    if keep_default {
                        Seq::new(11, |j: int| default_entry(input_channel_count,
                        input_channel_count, j))
                    } else {
                        Seq::new(11, |j: int| None::<Speakers>)
                    },
                    mapping@,
                    i,
                ),
    {
        let ghost base: Seq<Option<Speakers>> = if keep_default {
            Seq::new(11, |j: int| default_entry(input_channel_count, input_channel_count, j))
        } else {
            Seq::new(11, |j: int| None::<Speakers>)
        };
        let mut m = if keep_default {
            ChannelMapping::default(input_channel_count, input_channel_count)
        } else {
            ChannelMapping::empty()
        };
        proof {
            assert forall|i: int| 0 <= i < 11 implies m.slots@[i] == apply_overrides(
                base,
                mapping@.take(0),
                i,
            ) by {
                assert(mapping@.take(0).len() == 0);
            }
        }
        let mut k: usize = 0;
        while k < mapping.len()
            invariant
                k <= mapping@.len(),
                m.slots@.len() == 11,
                forall|j: int|
                    0 <= j < 11 ==> (#[trigger] m.slots@[j] matches Some(s) ==> s.wf()),
                forall|k2: int|
                    0 <= k2 < mapping@.len() ==> (#[trigger] mapping@[k2]).0.wf()
                        && mapping@[k2].1.wf(),
                forall|i: int|
                    0 <= i < 11 ==> m.slots@[i] == apply_overrides(base, mapping@.take(k as int), i),
            decreases mapping@.len() - k,
        {
            let pair = mapping[k];
            let idx = pair.0.as_u16();
            m.set(idx as usize, Some(pair.1));
            proof {
                let taken = mapping@.take(k + 1 as int);
                assert(taken.drop_last() =~= mapping@.take(k as int));
                assert(taken.last() == mapping@[k as int]);
                assert forall|i: int| 0 <= i < 11 implies m.slots@[i] == apply_overrides(
                    base,
                    taken,
                    i,
                ) by {
                    if i == idx as int {
                        assert(apply_overrides(base, taken, i) == Some(pair.1));
                    } else {
                        assert(apply_overrides(base, taken, i) == apply_overrides(
                            base,
                            taken.drop_last(),
                            i,
                        ));
                    }
                }
            }
            k = k + 1;
        }
        proof {
            assert(mapping@.take(mapping@.len() as int) =~= mapping@);
        }
        m
    }
}

/// For every input channel count in `1 ..= 11` and output channel count in
/// `1 ..= 11`, the default heuristic maps input channel 0 to at least one
/// speaker within the output channel range.
pub proof fn lemma_default_reaches_output(input_channels: u16, output_channels: u16)
    requires
        1 <= input_channels,
        1 <= output_channels <= 11,
    ensures
        default_entry(input_channels, output_channels, 0) is Some,
        exists|i: u16|
            i < output_channels && (#[trigger] default_entry(
                input_channels,
                output_channels,
                0,
            )->Some_0.has(i)),
{
    let oc = output_channels;
    let entry = default_entry(input_channels, output_channels, 0);
    crate::speakers::lemma_low_mask_has(oc);
    if input_channels == 1 {
        assert(entry->Some_0.has(0));
    } else if input_channels >= oc {
        assert((1u16 << (0 as u16)) & (1u16 << (0 as u16)) != 0) by (bit_vector);
        assert(entry->Some_0.has(0));
    } else {
        let lm = low_mask(oc);
        assert(2 <= input_channels < oc);
        assert(crate::speakers::spk_has(lm, 0));
        assert((lm & 0xfff3u16) & (1u16 << 0u16) != 0) by (bit_vector)
            requires
                lm & (1u16 << 0u16) != 0,
        ;
        assert(entry->Some_0.has(0));
    }
    assert(0 < output_channels && default_entry(input_channels, output_channels, 0)->Some_0.has(
        0,
    ));
}

} // verus!
