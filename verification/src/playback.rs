//! The playback scheduler's per-track step.
//!
//! Once per device callback, for every track, `write_track` resolves the
//! track's current asset from its absolute device-rate cursor, routes that
//! asset's data into the caller's interleaved output buffer — through the
//! mapped accumulating router when the asset has a resample slot, and
//! through the implicit heuristic router on the native fast path — and
//! advances the cursors by the frames produced. A track that has run out of
//! assets contributes silence; its track-relative cursor stays put while the
//! absolute cursor still advances uniformly with every callback.

use vstd::prelude::*;
use crate::mapping::ChannelMapping;
use crate::resampler::Resampler;
use crate::router::{
    channel_router, channel_router_split_input, effective_mapping, implicit_routed, mapped_routed,
    OUT_LIMIT,
};
use crate::sample::MAX_TARGET_RATE;
use crate::track::{lemma_located_unique, lemma_prefix_scaled_mono, located, total_scaled, Track};

verus! {

/// Mix one track's contribution for the current callback into
/// `sample_data`, an interleaved buffer of `target_sample_count` channels,
/// and advance the track's cursors.
///
/// `current_index` is the track-relative frame cursor (the read offset into
/// the current asset's data), `absolute_index` the track's absolute
/// device-rate frame cursor. When the absolute cursor lies past the end of
/// the track, the buffer is left untouched and only the absolute cursor
/// advances. Otherwise the covering asset is routed into the buffer at the
/// track-relative offset — accumulating through the default channel mapping
/// from its resample slot's buffer when it has one, and overwriting through
/// the implicit heuristic from its native data when it does not — and both
/// cursors advance by the frames produced, `sample_data.len() /
/// target_sample_count`.
pub fn write_track(
    track: &Track,
    resampler: &Resampler,
    current_index: &mut usize,
    absolute_index: &mut usize,
    target_sample_count: u16,
    target_sample_rate: u64,
    sample_data: &mut Vec<i64>,
)
    requires
        track.wf(),
        resampler.matches_track(*track),
        1 <= target_sample_count <= 11,
        1 <= target_sample_rate <= MAX_TARGET_RATE,
        old(sample_data)@.len() as int % (target_sample_count as int) == 0,
        forall|k: int|
            0 <= k < old(sample_data)@.len() ==> -OUT_LIMIT <= #[trigger] old(sample_data)@[k]
                <= OUT_LIMIT,
        *old(current_index) + old(sample_data)@.len() <= usize::MAX,
        *old(absolute_index) + old(sample_data)@.len() <= usize::MAX,
    ensures
        final(sample_data)@.len() == old(sample_data)@.len(),
        *final(absolute_index) == *old(absolute_index) + old(sample_data)@.len() as int / (
        target_sample_count as int),
        *old(absolute_index) as int >= total_scaled(track.samples@, target_sample_rate as int)
            ==> final(sample_data)@ == old(sample_data)@ && *final(current_index) == *old(
        current_index),
        forall|i: int|
            located(track.samples@, target_sample_rate as int, *old(absolute_index) as int, i)
                ==> (*final(current_index) == *old(current_index) + old(sample_data)@.len() as int
                / (target_sample_count as int)) && (if (#[trigger] resampler.slots@[i]) is Some {
                mapped_routed(
                    old(sample_data)@,
                    final(sample_data)@,
                    resampler.slots@[i]->Some_0@.buffer,
                    effective_mapping(
                        None::<ChannelMapping>,
                        track.samples@[i].channel_count,
                        target_sample_count,
                    ),
                    target_sample_count as int,
                    *old(current_index) as int,
                )
            } else {
                implicit_routed(
                    old(sample_data)@,
                    final(sample_data)@,
                    track.samples@[i].data@,
                    track.samples@[i].channel_count as int,
                    target_sample_count as int,
                    *old(current_index) as int,
                )
            }),
{
    let ghost samples = track.samples@;
    let ghost rate = target_sample_rate as int;
    let ghost idx0 = *absolute_index as int;
    let frames = sample_data.len() / (target_sample_count as usize);
    proof {
        vstd::arithmetic::div_mod::lemma_div_nonincreasing(
            sample_data@.len() as int,
            target_sample_count as int,
        );
        vstd::arithmetic::div_mod::lemma_div_pos_is_pos(
            sample_data@.len() as int,
            target_sample_count as int,
        );
    }
    let resolved = track.sample_at_sample_index(*absolute_index as u64, target_sample_rate);
    match resolved {
        None => {
            proof {
                assert forall|i: int| !located(samples, rate, idx0, i) by {
                    if located(samples, rate, idx0, i) {
                        lemma_prefix_scaled_mono(samples, rate, i + 1, samples.len() as int);
                    }
                }
            }
            *absolute_index = *absolute_index + frames;
        },
        Some((sample_index, _local)) => {
            proof {
                assert forall|j: int| located(samples, rate, idx0, j) implies j
                    == sample_index as int by {
                    lemma_located_unique(samples, rate, idx0, j, sample_index as int);
                }
                lemma_prefix_scaled_mono(samples, rate, sample_index + 1, samples.len() as int);
                assert(idx0 < total_scaled(samples, rate));
            }
            let sample = &track.samples[sample_index];
            match resampler.slot(sample_index) {
                Some(inner) => {
                    let converted = inner.buffer();
                    proof {
                        assert(converted@.len() == inner@.buffer.len());
                        assert forall|c: int, j: int|
                            0 <= c < converted@.len() && 0 <= j < converted@[c]@.len() implies
                            -crate::sample::SAMPLE_LIMIT <= #[trigger] converted@[c]@[j]
                            <= crate::sample::SAMPLE_LIMIT by {
                            assert(converted@[c]@[j] == inner@.buffer[c][j]);
                        }
                    }
                    channel_router_split_input(
                        sample.channel_count,
                        target_sample_count,
                        converted,
                        sample_data,
                        *current_index,
                        &None,
                    );
                    proof {
                        assert(converted.deep_view() =~~= inner@.buffer);
                    }
                },
                None => {
                    channel_router(
                        sample.channel_count,
                        target_sample_count,
                        &sample.data,
                        sample_data,
                        *current_index,
                    );
                },
            }
            *absolute_index = *absolute_index + frames;
            *current_index = *current_index + frames;
        },
    }
}

} // verus!
