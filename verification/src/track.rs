//! Track timelines.
//!
//! A `Track` is an ordered playlist of audio assets played back to back,
//! together with a cached prefix sum of their cumulative start times in
//! microseconds. `sample_at_sample_index` resolves an absolute device-rate
//! frame index to the asset covering it: a monotonic, gap-free,
//! overlap-free step function over the track's total scaled length.

use vstd::prelude::*;
use crate::sample::{Sample, MAX_TARGET_RATE};

verus! {

/// The number of device-rate frames asset `s` spans when played at
/// `target_rate`: `floor(frame_count * target_rate / native_rate)`.
pub open spec fn scaled_len(s: Sample, target_rate: int) -> int {
    s.spec_frames() * target_rate / (s.sampling_rate as int)
}

/// The absolute device-rate frame index at which asset `k` starts: the sum
/// of the scaled lengths of the assets before it.
pub open spec fn prefix_scaled(samples: Seq<Sample>, target_rate: int, k: int) -> int
    decreases k,
{
    if k <= 0 {
        0
    } else {
        prefix_scaled(samples, target_rate, k - 1) + scaled_len(samples[k - 1], target_rate)
    }
}

/// The total scaled length of a playlist at `target_rate`.
pub open spec fn total_scaled(samples: Seq<Sample>, target_rate: int) -> int {
    prefix_scaled(samples, target_rate, samples.len() as int)
}

/// Asset `i` covers absolute index `idx` at `target_rate`.
pub open spec fn located(samples: Seq<Sample>, target_rate: int, idx: int, i: int) -> bool {
    &&& 0 <= i < samples.len()
    &&& prefix_scaled(samples, target_rate, i) <= idx
    &&& idx < prefix_scaled(samples, target_rate, i) + scaled_len(samples[i], target_rate)
}

/// The microsecond at which asset `k` starts: the summed durations of the
/// assets before it.
pub open spec fn prefix_micros(samples: Seq<Sample>, k: int) -> int
    decreases k,
{
    if k <= 0 {
        0
    } else {
        prefix_micros(samples, k - 1) + samples[k - 1].spec_len_micros()
    }
}

/// An asset's duration in whole milliseconds.
pub open spec fn len_millis(s: Sample) -> int {
    s.spec_len_micros() / 1000
}

/// The millisecond at which asset `k` starts.
pub open spec fn prefix_millis(samples: Seq<Sample>, k: int) -> int
    decreases k,
{
    if k <= 0 {
        0
    } else {
        prefix_millis(samples, k - 1) + len_millis(samples[k - 1])
    }
}

/// Asset `i` covers millisecond `d_ms`, both endpoints excluded. (The
/// endpoints are deliberately excluded: a position exactly on an asset
/// boundary hits no asset, which is this lookup's long-standing behaviour.)
pub open spec fn time_hit(samples: Seq<Sample>, d_ms: int, i: int) -> bool {
    &&& 0 <= i < samples.len()
    &&& prefix_millis(samples, i) < d_ms
    &&& d_ms < prefix_millis(samples, i) + len_millis(samples[i])
}

/// Every asset of the playlist is well-formed.
pub open spec fn samples_wf(samples: Seq<Sample>) -> bool {
    forall|i: int| 0 <= i < samples.len() ==> (#[trigger] samples[i]).wf()
}

/// A well-formed asset's scaled length is nonnegative and bounded by the
/// product of its frame count and the target rate.
pub proof fn lemma_scaled_len_bounds(s: Sample, target_rate: int)
    requires
        s.wf(),
        0 <= target_rate,
    ensures
        0 <= scaled_len(s, target_rate),
        scaled_len(s, target_rate) <= s.spec_frames() * target_rate,
{
    let a = s.spec_frames();
    let p = a * target_rate;
    vstd::arithmetic::div_mod::lemma_div_pos_is_pos(s.data@.len() as int, s.channel_count as int);
    assert(a * target_rate >= 0) by (nonlinear_arith)
        requires
            a >= 0,
            target_rate >= 0,
    ;
    vstd::arithmetic::div_mod::lemma_div_pos_is_pos(p, s.sampling_rate as int);
    vstd::arithmetic::div_mod::lemma_div_nonincreasing(p, s.sampling_rate as int);
}

/// Prefix sums of scaled lengths are monotone.
pub proof fn lemma_prefix_scaled_mono(samples: Seq<Sample>, target_rate: int, k: int, m: int)
    requires
        samples_wf(samples),
        0 <= target_rate,
        0 <= k <= m <= samples.len(),
    ensures
        prefix_scaled(samples, target_rate, k) <= prefix_scaled(samples, target_rate, m),
    decreases m,
{
    if k < m {
        lemma_prefix_scaled_mono(samples, target_rate, k, m - 1);
        lemma_scaled_len_bounds(samples[m - 1], target_rate);
    }
}

/// A well-formed asset's duration is nonnegative.
pub proof fn lemma_len_micros_nonneg(s: Sample)
    requires
        s.wf(),
    ensures
        0 <= s.spec_len_micros(),
{
    let a = s.spec_frames();
    let p = a * 1000000;
    vstd::arithmetic::div_mod::lemma_div_pos_is_pos(s.data@.len() as int, s.channel_count as int);
    assert(a * 1000000 >= 0) by (nonlinear_arith)
        requires
            a >= 0,
    ;
    vstd::arithmetic::div_mod::lemma_div_pos_is_pos(p, s.sampling_rate as int);
}

/// Millisecond prefix sums never exceed microsecond prefix sums.
pub proof fn lemma_prefix_millis_le_micros(samples: Seq<Sample>, k: int)
    requires
        samples_wf(samples),
        k <= samples.len(),
    ensures
        0 <= prefix_millis(samples, k) <= prefix_micros(samples, k),
    decreases k,
{
    if k > 0 {
        lemma_prefix_millis_le_micros(samples, k - 1);
        let s = samples[k - 1];
        lemma_len_micros_nonneg(s);
        vstd::arithmetic::div_mod::lemma_div_pos_is_pos(s.spec_len_micros(), 1000);
        vstd::arithmetic::div_mod::lemma_div_nonincreasing(s.spec_len_micros(), 1000);
    }
}

/// Prefix sums of asset durations are monotone.
pub proof fn lemma_prefix_micros_mono(samples: Seq<Sample>, k: int, m: int)
    requires
        samples_wf(samples),
        0 <= k <= m <= samples.len(),
    ensures
        prefix_micros(samples, k) <= prefix_micros(samples, m),
    decreases m,
{
    if k < m {
        lemma_prefix_micros_mono(samples, k, m - 1);
        let s = samples[m - 1];
        let a = s.spec_frames();
        let p = a * 1000000;
        vstd::arithmetic::div_mod::lemma_div_pos_is_pos(
            s.data@.len() as int,
            s.channel_count as int,
        );
        assert(a * 1000000 >= 0) by (nonlinear_arith)
            requires
                a >= 0,
        ;
        vstd::arithmetic::div_mod::lemma_div_pos_is_pos(p, s.sampling_rate as int);
    }
}

/// Overlap-freedom: no absolute index is covered by two distinct assets.
pub proof fn lemma_located_unique(
    samples: Seq<Sample>,
    target_rate: int,
    idx: int,
    i: int,
    j: int,
)
    requires
        samples_wf(samples),
        0 <= target_rate,
        located(samples, target_rate, idx, i),
        located(samples, target_rate, idx, j),
    ensures
        i == j,
{
    if i < j {
        lemma_prefix_scaled_mono(samples, target_rate, i + 1, j);
        assert(prefix_scaled(samples, target_rate, i + 1) == prefix_scaled(
            samples,
            target_rate,
            i,
        ) + scaled_len(samples[i], target_rate));
    }
    if j < i {
        lemma_prefix_scaled_mono(samples, target_rate, j + 1, i);
        assert(prefix_scaled(samples, target_rate, j + 1) == prefix_scaled(
            samples,
            target_rate,
            j,
        ) + scaled_len(samples[j], target_rate));
    }
}

/// Gap-freedom: every absolute index below the total scaled length is
/// covered by some asset.
pub proof fn lemma_located_exists(samples: Seq<Sample>, target_rate: int, idx: int, k: int)
    requires
        samples_wf(samples),
        0 <= target_rate,
        0 <= k <= samples.len(),
        0 <= idx < prefix_scaled(samples, target_rate, k),
    ensures
        exists|i: int| #[trigger] located(samples, target_rate, idx, i) && i < k,
    decreases k,
{
    if k > 0 {
        if idx < prefix_scaled(samples, target_rate, k - 1) {
            lemma_located_exists(samples, target_rate, idx, k - 1);
        } else {
            assert(located(samples, target_rate, idx, k - 1));
        }
    }
}

/// Monotonicity: as the absolute index grows, the covering asset's position
/// in the playlist never decreases.
pub proof fn lemma_located_monotone(
    samples: Seq<Sample>,
    target_rate: int,
    idx1: int,
    idx2: int,
    i1: int,
    i2: int,
)
    requires
        samples_wf(samples),
        0 <= target_rate,
        idx1 <= idx2,
        located(samples, target_rate, idx1, i1),
        located(samples, target_rate, idx2, i2),
    ensures
        i1 <= i2,
{
    if i2 < i1 {
        lemma_prefix_scaled_mono(samples, target_rate, i2 + 1, i1);
        assert(prefix_scaled(samples, target_rate, i2 + 1) == prefix_scaled(
            samples,
            target_rate,
            i2,
        ) + scaled_len(samples[i2], target_rate));
    }
}

/// An ordered playlist of audio assets played back to back, with a cached
/// prefix sum of cumulative start times in microseconds and the view range
/// (also microseconds) of its timeline display.
pub struct Track {
    /// Display name of the track.
    pub name: String,
    /// The assets, in playback order.
    pub samples: Vec<Sample>,
    /// Start of the displayed time range, in microseconds.
    pub view_start: u64,
    /// End of the displayed time range, in microseconds.
    pub view_end: u64,
    /// `cached_times[i]` is the microsecond at which asset `i` starts.
    pub cached_times: Vec<u64>,
}

impl Track {
    /// Well-formedness: every asset is well-formed, the total duration fits
    /// the microsecond clock, and the cache matches the playlist.
    pub open spec fn wf(self) -> bool {
        &&& samples_wf(self.samples@)
        &&& prefix_micros(self.samples@, self.samples@.len() as int) <= u64::MAX
        &&& self.cached_times@.len() == self.samples@.len()
        &&& forall|i: int|
            0 <= i < self.samples@.len() ==> #[trigger] self.cached_times@[i] == prefix_micros(
                self.samples@,
                i,
            )
    }

    /// Recompute the cached start times from the current playlist.
    pub fn calculate_times(&mut self)
        requires
            samples_wf(old(self).samples@),
            prefix_micros(old(self).samples@, old(self).samples@.len() as int) <= u64::MAX,
        ensures
            final(self).samples == old(self).samples,
            final(self).name == old(self).name,
            final(self).view_start == old(self).view_start,
            final(self).view_end == old(self).view_end,
            final(self).wf(),
    {
        let ghost samples = self.samples@;
        self.cached_times.clear();
        let mut acc: u64 = 0;
        let mut i: usize = 0;
        while i < self.samples.len()
            invariant
                i <= self.samples@.len(),
                self.samples == old(self).samples,
                self.name == old(self).name,
                self.view_start == old(self).view_start,
                self.view_end == old(self).view_end,
                self.samples@ == samples,
                samples_wf(samples),
                prefix_micros(samples, samples.len() as int) <= u64::MAX,
                acc == prefix_micros(samples, i as int),
                self.cached_times@.len() == i,
                forall|j: int|
                    0 <= j < i ==> #[trigger] self.cached_times@[j] == prefix_micros(samples, j),
            decreases self.samples@.len() - i,
        {
            self.cached_times.push(acc);
            let d = self.samples[i].len_time();
            proof {
                lemma_prefix_micros_mono(samples, i + 1, samples.len() as int);
            }
            acc = acc + d;
            i = i + 1;
        }
    }

    /// Build a track over the given playlist; the cached start times are
    /// computed, and the view range starts as the first twenty seconds.
    pub fn new(name: String, samples: Vec<Sample>) -> (r: Track)
        requires
            samples_wf(samples@),
            prefix_micros(samples@, samples@.len() as int) <= u64::MAX,
        ensures
            r.wf(),
            r.name == name,
            r.samples == samples,
            r.view_start == 0,
            r.view_end == 20000000,
    {
        let mut track = Track {
            name,
            samples,
            view_start: 0,
            view_end: 20000000,
            cached_times: Vec::new(),
        };
        track.calculate_times();
        track
    }

    /// The asset at position `index` in the playlist.
    pub fn sample_at(&self, index: usize) -> (r: &Sample)
        requires
            index < self.samples@.len(),
        ensures
            *r == self.samples@[index as int],
    {
        &self.samples[index]
    }

    /// How far `absolute_time` lies past the left edge of the view range,
    /// when it does.
    pub fn time_rel_left(&self, absolute_time: u64) -> (r: Option<u64>)
        ensures
            r is Some <==> absolute_time >= self.view_start,
            r is Some ==> r->Some_0 == absolute_time - self.view_start,
    {
        if absolute_time >= self.view_start {
            Some(absolute_time - self.view_start)
        } else {
            None
        }
    }

    /// The position of the asset whose (open) millisecond interval contains
    /// the given playback time, if any. A time exactly on an asset boundary
    /// hits no asset (see `time_hit`).
    pub fn sample_at_time(&self, at_micros: u64) -> (r: Option<usize>)
        requires
            self.wf(),
        ensures
            r matches Some(i) ==> time_hit(self.samples@, (at_micros / 1000) as int, i as int),
            r is None ==> forall|j: int| !(#[trigger] time_hit(self.samples@, (at_micros / 1000) as int, j)),
    {
        let ghost samples = self.samples@;
        let d_ms: u64 = at_micros / 1000;
        let mut offset: u128 = 0;
        let mut i: usize = 0;
        while i < self.samples.len()
            invariant
                i <= samples.len(),
                self.wf(),
                self.samples@ == samples,
                offset as int == prefix_millis(samples, i as int),
                forall|j: int| 0 <= j < i ==> !(#[trigger] time_hit(samples, d_ms as int, j)),
                d_ms == at_micros / 1000,
            decreases samples.len() - i,
        {
            let micros = self.samples[i].len_time();
            let ms: u64 = micros / 1000;
            proof {
                assert(ms as int == len_millis(samples[i as int]));
            }
            proof {
                lemma_prefix_millis_le_micros(samples, i + 1);
                lemma_prefix_micros_mono(samples, i + 1, samples.len() as int);
            }
            if (d_ms as u128) > offset && (d_ms as u128) < offset + (ms as u128) {
                return Some(i);
            }
            offset = offset + (ms as u128);
            i = i + 1;
        }
        None
    }

    /// Resolve an absolute device-rate frame index to the asset covering it
    /// and the index's offset from that asset's scaled start — or `None`
    /// when the index lies at or past the end of the track.
    ///
    /// Over `[0, total_scaled)` this is a monotonic, gap-free, overlap-free
    /// step function of `index` (see `lemma_located_unique`,
    /// `lemma_located_exists`, `lemma_located_monotone`); at and beyond
    /// `total_scaled` it reports `None`.
    pub fn sample_at_sample_index(&self, index: u64, target_rate: u64) -> (r: Option<
        (usize, u64),
    >)
        requires
            self.wf(),
            1 <= target_rate <= MAX_TARGET_RATE,
        ensures
            r matches Some((i, loc)) ==> located(
                self.samples@,
                target_rate as int,
                index as int,
                i as int,
            ) && loc as int == index - prefix_scaled(self.samples@, target_rate as int, i as int),
            r is None ==> index as int >= total_scaled(self.samples@, target_rate as int),
            (index as int) < total_scaled(self.samples@, target_rate as int) ==> r is Some,
    {
        let ghost samples = self.samples@;
        let ghost rate = target_rate as int;
        let mut offset: u128 = 0;
        let mut i: usize = 0;
        while i < self.samples.len()
            invariant
                i <= samples.len(),
                self.wf(),
                self.samples@ == samples,
                1 <= target_rate <= MAX_TARGET_RATE,
                rate == target_rate as int,
                offset as int == prefix_scaled(samples, rate, i as int),
                offset <= index as u128,
            decreases samples.len() - i,
        {
            let s = &self.samples[i];
            let frames = s.len();
            proof {
                assert((frames as u128) * (target_rate as u128) <= (
                0xffff_ffff_ffff_ffffu128) * 0x10_0000u128) by (nonlinear_arith)
                    requires
                        frames as u128 <= 0xffff_ffff_ffff_ffffu128,
                        target_rate as u128 <= 0x10_0000u128,
                ;
            }
            let scaled: u128 = (frames as u128) * (target_rate as u128) / (
            s.sampling_rate as u128);
            proof {
                assert(scaled as int == scaled_len(samples[i as int], rate));
                lemma_scaled_len_bounds(samples[i as int], rate);
            }
            if (index as u128) < offset + scaled {
                let loc128 = (index as u128) - offset;
                proof {
                    assert(loc128 <= index as u128);
                }
                return Some((i, loc128 as u64));
            }
            offset = offset + scaled;
            i = i + 1;
        }
        proof {
            if (index as int) < total_scaled(samples, rate) {
                assert(offset as int == total_scaled(samples, rate));
            }
        }
        None
    }
}

} // verus!
