//! Resample slots: the bookkeeping of asynchronous sample-rate conversion.
//!
//! A `ResamplerInner` owns the planar source data of one asset, a cursor of
//! source frames already consumed, and the monotonically growing planar
//! output buffer of converted frames. The pull-based converter itself runs
//! outside the library: a conversion step asks for the next input chunk
//! (`next_input_chunk`, zero-padded past the end of the source so the
//! converter can flush), runs the converter on it, and hands the converted
//! frames back (`commit`), which appends them, advances the cursor, and
//! marks the slot complete once the whole source has been consumed. After
//! completion every further step is a no-op. `should_resample` is the
//! backpressure rule: no conversion happens while the buffer already holds
//! enough unread data for the consumer's requested span.

use vstd::prelude::*;
use crate::sample::SAMPLE_LIMIT;
use crate::track::Track;
use crate::util::{planar, strip_samples};

verus! {

/// The abstract state of a resample slot.
#[verifier::ext_equal]
pub ghost struct SlotState {
    /// Planar source data, one sequence per channel.
    pub source: Seq<Seq<i64>>,
    /// Source frames already handed to the converter.
    pub cursor: int,
    /// Planar converted output, one sequence per channel.
    pub buffer: Seq<Seq<i64>>,
    /// Whether the whole source has been consumed.
    pub complete: bool,
}

impl SlotState {
    /// The number of frames the source holds.
    pub open spec fn src_frames(self) -> int {
        self.source[0].len() as int
    }

    /// The number of converted frames buffered so far.
    pub open spec fn buffered(self) -> int {
        self.buffer[0].len() as int
    }

    /// Structural well-formedness of a slot.
    pub open spec fn wf(self) -> bool {
        &&& self.source.len() >= 1
        &&& forall|c: int|
            0 <= c < self.source.len() ==> (#[trigger] self.source[c]).len()
                == self.source[0].len()
        &&& self.buffer.len() == self.source.len()
        &&& forall|c: int|
            0 <= c < self.buffer.len() ==> (#[trigger] self.buffer[c]).len()
                == self.buffer[0].len()
        &&& 0 <= self.cursor <= self.src_frames()
        &&& self.complete == (self.cursor == self.src_frames())
        &&& forall|c: int, j: int|
            0 <= c < self.source.len() && 0 <= j < self.source[c].len() ==> -SAMPLE_LIMIT
                <= #[trigger] self.source[c][j] <= SAMPLE_LIMIT
        &&& forall|c: int, j: int|
            0 <= c < self.buffer.len() && 0 <= j < self.buffer[c].len() ==> -SAMPLE_LIMIT
                <= #[trigger] self.buffer[c][j] <= SAMPLE_LIMIT
    }
}

/// One conversion step: a completed slot stays as it is; otherwise the
/// converted frames are appended per channel and the cursor advances by the
/// `n` source frames consumed, capped at (and completing on reaching) the
/// source length.
pub open spec fn slot_step(s: SlotState, conv: Seq<Seq<i64>>, n: int) -> SlotState {
    if s.complete {
        s
    } else {
        SlotState {
            source: s.source,
            cursor: if s.cursor + n >= s.src_frames() {
                s.src_frames()
            } else {
                s.cursor + n
            },
            buffer: Seq::new(s.buffer.len() as nat, |c: int| s.buffer[c] + conv[c]),
            complete: s.cursor + n >= s.src_frames(),
        }
    }
}

/// The input chunk a conversion step reads: `n` frames per channel starting
/// at the cursor, zero-padded where the source has ended so the converter
/// can flush its history.
pub open spec fn chunk_spec(s: SlotState, n: int) -> Seq<Seq<i64>> {
    Seq::new(
        s.source.len() as nat,
        |c: int|
            Seq::new(
                n as nat,
                |f: int|
                    if s.cursor + f < s.src_frames() {
                        s.source[c][s.cursor + f]
                    } else {
                        0i64
                    },
            ),
    )
}

/// A step of a completed slot changes nothing and the slot stays complete.
pub proof fn lemma_slot_step_complete_is_noop(s: SlotState, conv: Seq<Seq<i64>>, n: int)
    requires
        s.complete,
    ensures
        slot_step(s, conv, n) == s,
{
}

/// Conversion steps only grow the buffer and the cursor, and completeness,
/// once reached, never goes away.
pub proof fn lemma_slot_step_monotone(s: SlotState, conv: Seq<Seq<i64>>, n: int)
    requires
        s.wf(),
        conv.len() == s.buffer.len(),
        n >= 0,
    ensures
        slot_step(s, conv, n).cursor >= s.cursor,
        slot_step(s, conv, n).buffer.len() == s.buffer.len(),
        forall|c: int|
            0 <= c < s.buffer.len() ==> (#[trigger] slot_step(s, conv, n).buffer[c]).len()
                >= s.buffer[c].len(),
        s.complete ==> slot_step(s, conv, n).complete,
{
}

/// Until the source is exhausted, a step with at least one source frame
/// strictly advances the cursor, and with at least one converted frame per
/// channel strictly grows the buffer.
pub proof fn lemma_slot_step_progress(s: SlotState, conv: Seq<Seq<i64>>, n: int)
    requires
        s.wf(),
        conv.len() == s.buffer.len(),
        !s.complete,
        n >= 1,
    ensures
        slot_step(s, conv, n).cursor > s.cursor,
        forall|c: int|
            0 <= c < s.buffer.len() && conv[c].len() >= 1 ==> (#[trigger] slot_step(
                s,
                conv,
                n,
            ).buffer[c]).len() > s.buffer[c].len(),
{
}

/// Per-asset background sample-rate conversion state.
pub struct ResamplerInner {
    /// Planar source data, one vector per channel.
    pub source: Vec<Vec<i64>>,
    /// Source frames already handed to the converter.
    pub cursor: usize,
    /// Planar converted output, one vector per channel.
    pub buffer: Vec<Vec<i64>>,
    /// Whether the whole source has been consumed.
    pub complete: bool,
}

impl View for ResamplerInner {
    type V = SlotState;

    open spec fn view(&self) -> SlotState {
        SlotState {
            source: self.source.deep_view(),
            cursor: self.cursor as int,
            buffer: self.buffer.deep_view(),
            complete: self.complete,
        }
    }
}

impl ResamplerInner {
    /// A fresh slot over the given planar source; nothing is converted yet,
    /// and an empty source is complete from the start.
    pub fn new(source: Vec<Vec<i64>>) -> (r: ResamplerInner)
        requires
            source@.len() >= 1,
            forall|c: int|
                0 <= c < source@.len() ==> (#[trigger] source@[c])@.len() == source@[0]@.len(),
            forall|c: int, j: int|
                0 <= c < source@.len() && 0 <= j < source@[c]@.len() ==> -SAMPLE_LIMIT
                    <= #[trigger] source@[c]@[j] <= SAMPLE_LIMIT,
        ensures
            r@.wf(),
            r@.source == source.deep_view(),
            r@.cursor == 0,
            r@.buffered() == 0,
            r@.complete == (r@.src_frames() == 0),
    {
        let channels = source.len();
        let complete = source[0].len() == 0;
        let mut buffer: Vec<Vec<i64>> = Vec::new();
        let mut c: usize = 0;
        while c < channels
            invariant
                c <= channels,
                buffer@.len() == c,
                forall|c2: int| 0 <= c2 < c ==> (#[trigger] buffer@[c2])@.len() == 0,
            decreases channels - c,
        {
            buffer.push(Vec::new());
            c = c + 1;
        }
        let r = ResamplerInner { source, cursor: 0, buffer, complete };
        proof {
            assert(r@.buffer.len() == channels);
            assert(forall|c2: int| 0 <= c2 < channels ==> (#[trigger] r@.buffer[c2]).len() == 0);
        }
        r
    }

    /// The number of channels of the source (and of the output buffer).
    pub fn channels(&self) -> (r: usize)
        requires
            self@.wf(),
        ensures
            r == self@.source.len(),
    {
        self.source.len()
    }

    /// Whether the whole source has been consumed.
    pub fn is_complete(&self) -> (r: bool)
        ensures
            r == self@.complete,
    {
        self.complete
    }

    /// The planar converted output buffer.
    pub fn buffer(&self) -> (r: &Vec<Vec<i64>>)
        ensures
            r.deep_view() == self@.buffer,
    {
        &self.buffer
    }

    /// The number of converted frames buffered so far.
    pub fn buffered_frames(&self) -> (r: usize)
        requires
            self@.wf(),
        ensures
            r == self@.buffered(),
    {
        self.buffer[0].len()
    }

    /// The backpressure rule: a conversion step is due only while the slot
    /// is incomplete and the buffer does not yet hold `span` unread frames
    /// past the consumer's `read_offset`.
    pub fn should_resample(&self, read_offset: usize, span: usize) -> (r: bool)
        requires
            self@.wf(),
        ensures
            r == (!self@.complete && self@.buffered() < read_offset + span),
    {
        if self.complete {
            return false;
        }
        let buffered = self.buffer[0].len();
        if buffered < span {
            true
        } else {
            read_offset > buffered - span
        }
    }

    /// The next `frames` input frames for the converter, taken at the
    /// cursor and zero-padded past the end of the source.
    pub fn next_input_chunk(&self, frames: usize) -> (r: Vec<Vec<i64>>)
        requires
            self@.wf(),
            self@.cursor + frames <= usize::MAX,
        ensures
            r.deep_view() == chunk_spec(self@, frames as int),
            r@.len() == self@.source.len(),
    {
        let channels = self.source.len();
        let src_frames = self.source[0].len();
        let mut r: Vec<Vec<i64>> = Vec::new();
        let mut c: usize = 0;
        while c < channels
            invariant
                c <= channels,
                channels == self@.source.len(),
                src_frames as int == self@.src_frames(),
                self@.wf(),
                self@.cursor + frames <= usize::MAX,
                r@.len() == c,
                forall|c2: int|
                    0 <= c2 < c ==> (#[trigger] r@[c2])@ == chunk_spec(self@, frames as int)[c2],
            decreases channels - c,
        {
            let source_chan = &self.source[c];
            let mut chan: Vec<i64> = Vec::new();
            let mut f: usize = 0;
            while f < frames
                invariant
                    f <= frames,
                    c < channels,
                    channels == self@.source.len(),
                    src_frames as int == self@.src_frames(),
                    source_chan@ == self@.source[c as int],
                    self@.wf(),
                    self@.cursor + frames <= usize::MAX,
                    chan@.len() == f,
                    forall|f2: int|
                        0 <= f2 < f ==> #[trigger] chan@[f2] == (if self@.cursor + f2
                            < self@.src_frames() {
                            self@.source[c as int][self@.cursor + f2]
                        } else {
                            0i64
                        }),
                decreases frames - f,
            {
                if self.cursor + f < src_frames {
                    chan.push(source_chan[self.cursor + f]);
                } else {
                    chan.push(0);
                }
                f = f + 1;
            }
            r.push(chan);
            proof {
                assert(r@[c as int]@ =~= chunk_spec(self@, frames as int)[c as int]);
            }
            c = c + 1;
        }
        proof {
            assert(r.deep_view() =~~= chunk_spec(self@, frames as int));
        }
        r
    }

    /// Commit one conversion step: append the converted frames per channel,
    /// advance the cursor by the `frames_in` source frames consumed, and
    /// mark the slot complete once the source is exhausted. A completed
    /// slot is immutable: the call changes nothing and reports `true`.
    /// Returns whether the slot is complete after the step.
    pub fn commit(&mut self, converted: &Vec<Vec<i64>>, frames_in: usize) -> (r: bool)
        requires
            old(self)@.wf(),
            converted@.len() == old(self)@.buffer.len(),
            forall|c: int|
                0 <= c < converted@.len() ==> (#[trigger] converted@[c])@.len()
                    == converted@[0]@.len(),
            forall|c: int, j: int|
                0 <= c < converted@.len() && 0 <= j < converted@[c]@.len() ==> -SAMPLE_LIMIT
                    <= #[trigger] converted@[c]@[j] <= SAMPLE_LIMIT,
            old(self)@.cursor + frames_in <= usize::MAX,
        ensures
            final(self)@ == slot_step(old(self)@, converted.deep_view(), frames_in as int),
            final(self)@.wf(),
            r == final(self)@.complete,
    {
        if self.complete {
            return true;
        }
        let ghost pre = self@;
        let ghost conv = converted.deep_view();
        let channels = self.source.len();
        let mut new_buffer: Vec<Vec<i64>> = Vec::new();
        let mut c: usize = 0;
        while c < channels
            invariant
                c <= channels,
                channels == pre.buffer.len(),
                self@ == pre,
                pre.wf(),
                conv == converted.deep_view(),
                converted@.len() == pre.buffer.len(),
                new_buffer@.len() == c,
                forall|c2: int|
                    0 <= c2 < c ==> (#[trigger] new_buffer@[c2])@ == pre.buffer[c2] + conv[c2],
            decreases channels - c,
        {
            let old_chan = &self.buffer[c];
            let conv_chan = &converted[c];
            let mut chan: Vec<i64> = Vec::new();
            let mut j: usize = 0;
            while j < old_chan.len()
                invariant
                    j <= old_chan@.len(),
                    chan@.len() == j,
                    forall|j2: int| 0 <= j2 < j ==> #[trigger] chan@[j2] == old_chan@[j2],
                decreases old_chan@.len() - j,
            {
                chan.push(old_chan[j]);
                j = j + 1;
            }
            let mut j2: usize = 0;
            while j2 < conv_chan.len()
                invariant
                    j2 <= conv_chan@.len(),
                    chan@.len() == old_chan@.len() + j2,
                    forall|j3: int| 0 <= j3 < old_chan@.len() ==> #[trigger] chan@[j3]
                        == old_chan@[j3],
                    forall|j3: int|
                        old_chan@.len() <= j3 < old_chan@.len() + j2 ==> #[trigger] chan@[j3]
                            == conv_chan@[j3 - old_chan@.len()],
                decreases conv_chan@.len() - j2,
            {
                chan.push(conv_chan[j2]);
                j2 = j2 + 1;
            }
            new_buffer.push(chan);
            proof {
                assert(old_chan@ == pre.buffer[c as int]);
                assert(conv_chan@ == conv[c as int]);
                assert(new_buffer@[c as int]@ =~~= pre.buffer[c as int] + conv[c as int]);
            }
            c = c + 1;
        }
        self.buffer = new_buffer;
        let src_frames = self.source[0].len();
        let done = self.cursor + frames_in >= src_frames;
        if done {
            self.cursor = src_frames;
        } else {
            self.cursor = self.cursor + frames_in;
        }
        self.complete = done;
        proof {
            let post = slot_step(pre, conv, frames_in as int);
            assert(self@.buffer =~~= post.buffer);
            assert(self@ =~~= post);
        }
        done
    }
}

/// One track's resample slots, one (optional) per asset: a slot exists
/// exactly for the assets whose native rate differs from the device rate.
pub struct Resampler {
    /// Entry `i` converts asset `i` of the track, when conversion is needed.
    pub slots: Vec<Option<ResamplerInner>>,
}

impl Resampler {
    /// Every slot present is well-formed.
    pub open spec fn wf(self) -> bool {
        forall|i: int|
            0 <= i < self.slots@.len() ==> (#[trigger] self.slots@[i] matches Some(inner)
                ==> inner@.wf())
    }

    /// The slots line up with a track's playlist: one entry per asset, and a
    /// present slot has one source channel per channel of its asset.
    pub open spec fn matches_track(self, track: Track) -> bool {
        &&& self.wf()
        &&& self.slots@.len() == track.samples@.len()
        &&& forall|i: int|
            0 <= i < self.slots@.len() ==> (#[trigger] self.slots@[i] matches Some(inner)
                ==> inner@.source.len() == track.samples@[i].channel_count as int)
    }

    /// The number of slots.
    pub fn len(&self) -> (r: usize)
        ensures
            r == self.slots@.len(),
    {
        self.slots.len()
    }

    /// The slot for asset `index`.
    pub fn slot(&self, index: usize) -> (r: &Option<ResamplerInner>)
        requires
            index < self.slots@.len(),
        ensures
            *r == self.slots@[index as int],
    {
        &self.slots[index]
    }

    /// Build the slots for one track at stream start: every asset whose
    /// native rate differs from `target_rate` gets a fresh slot over the
    /// planar split of its data; assets already at the device rate get none.
    pub fn new_for_track(track: &Track, target_rate: u32) -> (r: Resampler)
        requires
            track.wf(),
        ensures
            r.matches_track(*track),
            forall|i: int|
                0 <= i < track.samples@.len() ==> ((#[trigger] r.slots@[i]) is Some <==> track
                    .samples@[i].sampling_rate != target_rate),
            forall|i: int|
                0 <= i < track.samples@.len() ==> (#[trigger] r.slots@[i] matches Some(inner)
                    ==> inner@.source == planar(
                    track.samples@[i].data@,
                    track.samples@[i].channel_count as int,
                ) && inner@.cursor == 0 && inner@.buffered() == 0),
    {
        let mut slots: Vec<Option<ResamplerInner>> = Vec::new();
        let mut i: usize = 0;
        while i < track.samples.len()
            invariant
                i <= track.samples@.len(),
                track.wf(),
                slots@.len() == i,
                forall|j: int|
                    0 <= j < i ==> ((#[trigger] slots@[j]) is Some <==> track.samples@[j]
                        .sampling_rate != target_rate),
                forall|j: int|
                    0 <= j < i ==> (#[trigger] slots@[j] matches Some(inner) ==> inner@.wf()
                        && inner@.source.len() == track.samples@[j].channel_count as int
                        && inner@.source == planar(
                        track.samples@[j].data@,
                        track.samples@[j].channel_count as int,
                    ) && inner@.cursor == 0 && inner@.buffered() == 0),
            decreases track.samples@.len() - i,
        {
            let s = &track.samples[i];
            if s.sampling_rate != target_rate {
                let channels = s.channel_count as usize;
                let source = strip_samples(&s.data, channels);
                proof {
                    let dlen = s.data@.len() as int;
                    let frames = dlen / (channels as int);
                    vstd::arithmetic::div_mod::lemma_fundamental_div_mod(dlen, channels as int);
                    assert forall|c: int, j: int|
                        0 <= c < source@.len() && 0 <= j < source@[c]@.len() implies -SAMPLE_LIMIT
                        <= #[trigger] source@[c]@[j] <= SAMPLE_LIMIT by {
                        assert(source@[c]@[j] == s.data@[j * (channels as int) + c]);
                        assert(0 <= j * (channels as int) + c < (channels as int) * frames)
                            by (nonlinear_arith)
                            requires
                                0 <= c < channels as int,
                                0 <= j < frames,
                                0 < channels as int,
                        ;
                    }
                }
                let inner = ResamplerInner::new(source);
                slots.push(Some(inner));
            } else {
                slots.push(None);
            }
            i = i + 1;
        }
        Resampler { slots }
    }
}

} // verus!
