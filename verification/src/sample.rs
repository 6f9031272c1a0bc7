//! Decoded audio assets.
//!
//! A `Sample` is immutable decoded audio: a channel count, a native sample
//! rate, and interleaved sample data. Amplitudes are fixed-point `i64`
//! values bounded by `SAMPLE_LIMIT`, so that mixing sums provably fit.

use vstd::prelude::*;
use crate::id::Id;

verus! {

/// The largest amplitude magnitude an asset sample may carry.
pub const SAMPLE_LIMIT: i64 = 0x1_0000_0000_0000;

/// The largest interleaved data length an asset may carry; keeps frame
/// counts small enough that time and rate conversions fit in 64 bits.
pub const MAX_DATA_LEN: u64 = 0x400_0000_0000;

/// The largest device sample rate the timeline arithmetic accepts.
pub const MAX_TARGET_RATE: u64 = 0x10_0000;

/// Immutable decoded audio: channel count, native sample rate, and
/// interleaved fixed-point sample data.
#[derive(Debug, Clone)]
pub struct Sample {
    /// Identifier handed out by the application's id allocator.
    pub id: Id,
    /// Display name of the asset.
    pub name: String,
    /// Number of interleaved channels; between 1 and `Speakers::MAX_COUNT`.
    pub channel_count: u16,
    /// The sample rate the asset was authored at, in frames per second.
    pub sampling_rate: u32,
    /// Interleaved sample data; its length is a multiple of `channel_count`.
    pub data: Vec<i64>,
}

impl Sample {
    /// Structural well-formedness of an asset.
    pub open spec fn wf(self) -> bool {
        &&& 1 <= self.channel_count <= 11
        &&& 1 <= self.sampling_rate
        &&& self.data@.len() as int % (self.channel_count as int) == 0
        &&& self.data@.len() <= MAX_DATA_LEN
        &&& forall|k: int|
            0 <= k < self.data@.len() ==> -SAMPLE_LIMIT <= #[trigger] self.data@[k] <= SAMPLE_LIMIT
    }

    /// The number of frames the asset holds.
    pub open spec fn spec_frames(self) -> int {
        self.data@.len() as int / (self.channel_count as int)
    }

    /// The asset's duration in microseconds (rounded down).
    pub open spec fn spec_len_micros(self) -> int {
        self.spec_frames() * 1000000 / (self.sampling_rate as int)
    }

    /// Build an asset from already decoded interleaved data.
    pub fn new(id: Id, name: String, channel_count: u16, sampling_rate: u32, data: Vec<i64>) -> (r:
        Sample)
        requires
            1 <= channel_count <= 11,
            1 <= sampling_rate,
            data@.len() as int % (channel_count as int) == 0,
            data@.len() <= MAX_DATA_LEN,
            forall|k: int|
                0 <= k < data@.len() ==> -SAMPLE_LIMIT <= #[trigger] data@[k] <= SAMPLE_LIMIT,
        ensures
            r.wf(),
            r.id == id,
            r.name == name,
            r.channel_count == channel_count,
            r.sampling_rate == sampling_rate,
            r.data == data,
    {
        Sample { id, name, channel_count, sampling_rate, data }
    }

    /// The number of frames the asset holds.
    pub fn len(&self) -> (r: usize)
        requires
            self.wf(),
        ensures
            r == self.spec_frames(),
    {
        self.data.len() / (self.channel_count as usize)
    }

    /// The asset's duration in microseconds (rounded down).
    pub fn len_time(&self) -> (r: u64)
        requires
            self.wf(),
        ensures
            r == self.spec_len_micros(),
    {
        let frames = self.len();
        proof {
            assert(self.spec_frames() <= self.data@.len());
            assert((frames as int) * 1000000 <= (MAX_DATA_LEN as int) * 1000000)
                by (nonlinear_arith)
                requires
                    0 <= frames as int <= MAX_DATA_LEN as int,
            ;
        }
        (frames as u64) * 1000000 / (self.sampling_rate as u64)
    }
}

} // verus!
