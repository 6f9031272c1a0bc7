//! Small helpers: index ranges and planar channel splitting.

use vstd::prelude::*;

verus! {

/// Represents a range of sample indices in a sample.
#[derive(Debug, Clone, Copy, PartialEq, Eq, Structural)]
pub struct SampleRange {
    /// Inclusive lower endpoint.
    pub min: u64,
    /// Exclusive upper endpoint.
    pub max: u64,
}

impl SampleRange {
    /// Get the difference between the two endpoints.
    pub fn len(&self) -> (r: u64)
        requires
            self.min <= self.max,
        ensures
            r == self.max - self.min,
    {
        self.max - self.min
    }
}

/// The planar (per-channel) view of an interleaved signal: element `f` of
/// channel `c` is the interleaved element at `f * channels + c`.
pub open spec fn planar(data: Seq<i64>, channels: int) -> Seq<Seq<i64>> {
    Seq::new(
        channels as nat,
        |c: int| Seq::new((data.len() as int / channels) as nat, |f: int| data[f * channels + c]),
    )
}

/// Break an interleaved audio signal (channels packed one after another
/// within each frame) into one vector per channel.
pub fn strip_samples(data: &Vec<i64>, channels: usize) -> (r: Vec<Vec<i64>>)
    requires
        1 <= channels,
        data@.len() as int % (channels as int) == 0,
    ensures
        r.deep_view() == planar(data@, channels as int),
        r@.len() == channels,
        forall|c: int| 0 <= c < channels ==> #[trigger] r@[c]@.len() == data@.len() as int / (
        channels as int),
        forall|c: int, f: int|
            0 <= c < channels && 0 <= f < data@.len() as int / (channels as int) ==> #[trigger] r@[c]@[f]
                == data@[f * (channels as int) + c],
{
    let n = data.len();
    let frames = n / channels;
    proof {
        vstd::arithmetic::div_mod::lemma_fundamental_div_mod(
            data@.len() as int,
            channels as int,
        );
    }
    let mut r: Vec<Vec<i64>> = Vec::new();
    let mut c: usize = 0;
    while c < channels
        invariant
            c <= channels,
            n == data@.len(),
            frames == data@.len() as int / (channels as int),
            data@.len() as int == (channels as int) * (frames as int),
            r@.len() == c,
            forall|c2: int| 0 <= c2 < c ==> #[trigger] r@[c2]@.len() == frames as int,
            forall|c2: int, f: int|
                0 <= c2 < c && 0 <= f < frames ==> #[trigger] r@[c2]@[f] == data@[f * (
                channels as int) + c2],
        decreases channels - c,
    {
        let mut chan: Vec<i64> = Vec::new();
        let mut f: usize = 0;
        while f < frames
            invariant
                f <= frames,
                c < channels,
                n == data@.len(),
                frames == data@.len() as int / (channels as int),
                data@.len() as int == (channels as int) * (frames as int),
                chan@.len() == f,
                forall|f2: int|
                    0 <= f2 < f ==> #[trigger] chan@[f2] == data@[f2 * (channels as int) + (
                    c as int)],
            decreases frames - f,
        {
            proof {
                assert(f * (channels as int) + (c as int) < (channels as int) * (frames as int))
                    by (nonlinear_arith)
                    requires
                        0 <= f < frames,
                        0 <= c < channels,
                ;
                assert(f * (channels as int) + (c as int) < n as int);
            }
            chan.push(data[f * channels + c]);
            f = f + 1;
        }
        r.push(chan);
        c = c + 1;
    }
    proof {
        let pv = planar(data@, channels as int);
        assert(r.deep_view().len() == pv.len());
        assert forall|c2: int| 0 <= c2 < channels implies r.deep_view()[c2] == pv[c2] by {
            assert(r.deep_view()[c2] =~= pv[c2]);
        }
        assert(r.deep_view() =~= pv);
    }
    r
}

} // verus!
