//! Channel routing: writing per-channel sample data into one interleaved
//! output buffer.
//!
//! Two operating modes exist. The implicit heuristic (`channel_router`)
//! overwrites output elements from an interleaved source, broadcasting,
//! truncating, or spreading channels depending on the channel counts. The
//! mapping-driven mode (`channel_router_split_input`) takes planar
//! per-channel input and *accumulates* into the output according to a
//! `ChannelMapping`, so that several input channels can feed one output and
//! several tracks can be summed into one device buffer.

use vstd::prelude::*;
use crate::mapping::{default_entry, ChannelMapping};
use crate::sample::SAMPLE_LIMIT;
use crate::speakers::Speakers;

verus! {

/// Largest output magnitude the mapped router accepts on entry, leaving
/// headroom for one bounded contribution per mappable input channel.
pub const OUT_LIMIT: i64 = 0x7fff_ffff_ffff_ffff - 11 * 0x1_0000_0000_0000;

/// `v` if present, otherwise `d`.
pub open spec fn or_else(v: Option<i64>, d: i64) -> i64 {
    match v {
        Some(x) => x,
        None => d,
    }
}

/// The source element the implicit heuristic writes to output frame `f`,
/// channel `c` — or `None` when that element is left untouched (source data
/// missing, or a channel the heuristic does not fill).
///
/// With one input channel the single sample of the frame is broadcast to
/// every output channel. With at least as many inputs as outputs, frames are
/// copied and truncated. Otherwise (upmix): channels 0 and 1 copy straight
/// through, channels 2 and 3 copy when the input has them, and output pairs
/// from channel 4 on repeat input channels 0 and 1.
pub open spec fn implicit_val(
    input: Seq<i64>,
    ic: int,
    oc: int,
    off: int,
    f: int,
    c: int,
) -> Option<i64> {
    if ic == 1 {
        if off + f < input.len() {
            Some(input[off + f])
        } else {
            None
        }
    } else if ic >= oc {
        if (off + f) * ic + c < input.len() {
            Some(input[(off + f) * ic + c])
        } else {
            None
        }
    } else {
        if c < 2 || (c < 4 && c < ic) {
            if (off + f) * ic + c < input.len() {
                Some(input[(off + f) * ic + c])
            } else {
                None
            }
        } else if c >= 4 && (c % 2 == 1 || c + 1 < oc) {
            if (off + f) * ic + c % 2 < input.len() {
                Some(input[(off + f) * ic + c % 2])
            } else {
                None
            }
        } else {
            None
        }
    }
}

/// What output element `k` holds after the implicit heuristic ran, given
/// what it held before.
pub open spec fn implicit_at(
    old_out: Seq<i64>,
    input: Seq<i64>,
    ic: int,
    oc: int,
    off: int,
    k: int,
) -> i64 {
    or_else(implicit_val(input, ic, oc, off, k / oc, k % oc), old_out[k])
}

/// Relation between the output buffer before and after the implicit
/// heuristic router.
pub open spec fn implicit_routed(
    old_out: Seq<i64>,
    new_out: Seq<i64>,
    input: Seq<i64>,
    ic: int,
    oc: int,
    off: int,
) -> bool {
    &&& new_out.len() == old_out.len()
    &&& forall|k: int|
        0 <= k < old_out.len() ==> #[trigger] new_out[k] == implicit_at(
            old_out,
            input,
            ic,
            oc,
            off,
            k,
        )
}

/// True when the mapping routes input channel `idx` to output channel `c`:
/// the entry exists and holds speaker `c`, and speaker `c` is available at
/// this output channel count.
pub open spec fn routes(m: Seq<Option<Speakers>>, idx: int, c: int, oc: int) -> bool {
    &&& 0 <= idx < m.len()
    &&& 0 <= c < oc
    &&& c < 11
    &&& m[idx] is Some
    &&& m[idx]->Some_0.has(c as u16)
}

/// The contribution of input channel `idx` to output frame `f`, channel `c`:
/// its sample at `off + f` when it is routed there and the sample exists,
/// and 0 otherwise.
pub open spec fn gain_of(
    inputs: Seq<Seq<i64>>,
    m: Seq<Option<Speakers>>,
    oc: int,
    off: int,
    f: int,
    c: int,
    idx: int,
) -> int {
    if routes(m, idx, c, oc) && 0 <= off + f < inputs[idx].len() {
        inputs[idx][off + f] as int
    } else {
        0
    }
}

/// The summed contribution of input channels `0 .. k` to output frame `f`,
/// channel `c`.
pub open spec fn gain_sum(
    inputs: Seq<Seq<i64>>,
    m: Seq<Option<Speakers>>,
    oc: int,
    off: int,
    f: int,
    c: int,
    k: int,
) -> int
    decreases k,
{
    if k <= 0 {
        0
    } else {
        gain_sum(inputs, m, oc, off, f, c, k - 1) + gain_of(inputs, m, oc, off, f, c, k - 1)
    }
}

/// Relation between the output buffer before and after the mapping-driven
/// router: every element has gained exactly the summed contributions of all
/// input channels routed to it.
pub open spec fn mapped_routed(
    old_out: Seq<i64>,
    new_out: Seq<i64>,
    inputs: Seq<Seq<i64>>,
    m: Seq<Option<Speakers>>,
    oc: int,
    off: int,
) -> bool {
    &&& new_out.len() == old_out.len()
    &&& forall|k: int|
        0 <= k < old_out.len() ==> #[trigger] new_out[k] == old_out[k] + gain_sum(
            inputs,
            m,
            oc,
            off,
            k / oc,
            k % oc,
            inputs.len() as int,
        )
}

/// The mapping the mapped router follows: the explicit one when supplied,
/// otherwise the default heuristic for the given channel counts.
pub open spec fn effective_mapping(cm: Option<ChannelMapping>, ic: u16, oc: u16) -> Seq<
    Option<Speakers>,
> {
    match cm {
        Some(m) => m.slots@,
        None => Seq::new(11, |i: int| default_entry(ic, oc, i)),
    }
}

/// Route an interleaved input signal into an interleaved output buffer with
/// the implicit heuristic (no mapping): broadcast a mono input, copy and
/// truncate when inputs cover the outputs, and spread an upmix otherwise.
/// Elements the heuristic does not fill, and elements whose source data is
/// missing (an underrun), are left untouched.
///
/// `input_offset` is the frame offset into the source at which reading
/// starts.
pub fn channel_router(
    input_channels: u16,
    output_channels: u16,
    input: &Vec<i64>,
    output: &mut Vec<i64>,
    input_offset: usize,
)
    requires
        1 <= input_channels,
        1 <= output_channels,
        old(output)@.len() as int % (output_channels as int) == 0,
    ensures
        implicit_routed(
            old(output)@,
            final(output)@,
            input@,
            input_channels as int,
            output_channels as int,
            input_offset as int,
        ),
{
    let ic = input_channels as usize;
    let oc = output_channels as usize;
    let n = output.len();
    let ni = input.len();
    let frames = n / oc;
    let off = input_offset;
    proof {
        vstd::arithmetic::div_mod::lemma_fundamental_div_mod(n as int, oc as int);
    }
    let ghost gic = ic as int;
    let ghost goc = oc as int;
    let ghost goff = off as int;
    let ghost out0 = output@;
    let mut f: usize = 0;
    while f < frames
        invariant
            f <= frames,
            1 <= ic <= 0xffff,
            1 <= oc,
            n == out0.len(),
            ni == input@.len(),
            n as int == (oc as int) * (frames as int),
            output@.len() == n,
            forall|k: int|
                0 <= k < n ==> #[trigger] output@[k] == (if k < f * (oc as int) {
                    implicit_at(out0, input@, gic, goc, goff, k)
                } else {
                    out0[k]
                }),
            gic == ic as int,
            goc == oc as int,
            goff == off as int,
        decreases frames - f,
    {
        proof {
            assert((f + 1) * (oc as int) <= (frames as int) * (oc as int)) by (nonlinear_arith)
                requires
                    0 <= f < frames,
                    0 < oc,
            ;
            assert((oc as int) * (frames as int) == (frames as int) * (oc as int))
                by (nonlinear_arith);
        }
        let mut c: usize = 0;
        while c < oc
            invariant
                c <= oc,
                f < frames,
                1 <= ic <= 0xffff,
                1 <= oc,
                n == out0.len(),
                ni == input@.len(),
                n as int == (oc as int) * (frames as int),
                (f + 1) * (oc as int) <= n,
                output@.len() == n,
                forall|k: int|
                    0 <= k < n ==> #[trigger] output@[k] == (if k < f * (oc as int) + c {
                        implicit_at(out0, input@, gic, goc, goff, k)
                    } else {
                        out0[k]
                    }),
                gic == ic as int,
                goc == oc as int,
                goff == off as int,
            decreases oc - c,
        {
            proof {
                assert(f * (oc as int) + c < (f + 1) * (oc as int)) by (nonlinear_arith)
                    requires
                        0 <= c < oc,
                        0 <= f,
                        0 < oc,
                ;
            }
            let k = f * oc + c;
            // Which source element feeds output frame f, channel c, if any.
            let v: Option<i64> = if ic == 1 {
                if (off as u128) + (f as u128) < ni as u128 {
                    Some(input[off + f])
                } else {
                    None
                }
            } else {
                let src_channel: Option<usize> = if ic >= oc {
                    Some(c)
                } else if c < 2 || (c < 4 && c < ic) {
                    Some(c)
                } else if c >= 4 && (c % 2 == 1 || c + 1 < oc) {
                    Some(c % 2)
                } else {
                    None
                };
                match src_channel {
                    Some(sc) => {
                        proof {
                            assert(((off as u128) + (f as u128)) * (ic as u128) + (sc as u128)
                                < 0x1_0000_0000_0000_0000_0000_0000_0000_0000) by (nonlinear_arith)
                                requires
                                    off as u128 <= 0xffff_ffff_ffff_ffffu128,
                                    f as u128 <= 0xffff_ffff_ffff_ffffu128,
                                    ic as u128 <= 0xffffu128,
                                    sc as u128 <= 0xffff_ffff_ffff_ffffu128,
                            ;
                        }
                        let idx128: u128 = ((off as u128) + (f as u128)) * (ic as u128) + (
                        sc as u128);
                        if idx128 < ni as u128 {
                            let idx = idx128 as usize;
                            Some(input[idx])
                        } else {
                            None
                        }
                    },
                    None => None,
                }
            };
            proof {
                assert(v == implicit_val(input@, gic, goc, goff, f as int, c as int));
                vstd::arithmetic::div_mod::lemma_fundamental_div_mod_converse(
                    k as int,
                    oc as int,
                    f as int,
                    c as int,
                );
            }
            match v {
                Some(x) => {
                    output.set(k, x);
                },
                None => (),
            }
            c = c + 1;
        }
        proof {
            assert((f + 1) * (oc as int) == f * (oc as int) + oc) by (nonlinear_arith);
        }
        f = f + 1;
    }
    proof {
        assert((frames as int) * (oc as int) == n) by (nonlinear_arith)
            requires
                n as int == (oc as int) * (frames as int),
        ;
        assert forall|k: int| 0 <= k < n implies output@[k] == implicit_at(
            out0,
            input@,
            gic,
            goc,
            goff,
            k,
        ) by {
            assert(k < (frames as int) * (oc as int));
        }
    }
}

/// The part of input channel `idx`'s contribution to output element `k`
/// already applied while frames below `f_done` are finished and, within
/// frame `f_done`, output channels below `c_done` are finished.
pub open spec fn gain_partial(
    inputs: Seq<Seq<i64>>,
    m: Seq<Option<Speakers>>,
    oc: int,
    off: int,
    k: int,
    idx: int,
    f_done: int,
    c_done: int,
) -> int {
    let kf = k / oc;
    let kc = k % oc;
    if routes(m, idx, kc, oc) && 0 <= off + kf < inputs[idx].len() && (kf < f_done || (kf == f_done
        && kc < c_done)) {
        inputs[idx][off + kf] as int
    } else {
        0
    }
}

/// A nonnegative number below `d * q` divides by `d` to something below `q`.
proof fn lemma_div_below(k: int, d: int, q: int)
    requires
        0 <= k,
        0 < d,
        k < d * q,
    ensures
        k / d < q,
{
    vstd::arithmetic::div_mod::lemma_fundamental_div_mod(k, d);
    vstd::arithmetic::div_mod::lemma_mod_division_less_than_divisor(k, d);
    assert(d * (k / d) < d * q);
    assert(k / d < q) by (nonlinear_arith)
        requires
            0 < d,
            d * (k / d) < d * q,
    ;
}

/// Route planar per-channel input into an interleaved output buffer
/// according to a channel mapping, accumulating (adding, not overwriting)
/// each routed input channel's samples into the output channels of the
/// speakers it feeds. When no mapping is supplied, the default heuristic for
/// the given channel counts is used. Source data missing past the end of an
/// input channel contributes nothing (an underrun leaves silence).
///
/// # Arguments
///
/// * `input_channels` - the number of channels the input signal contains
/// * `output_channels` - the number of channels the output signal contains
/// * `input` - the input signal, one vector per channel
/// * `output` - the interleaved output to accumulate into
/// * `input_offset` - the frame offset of the input signal to read from
/// * `channel_mapping` - the mapping to consult when writing the signals
pub fn channel_router_split_input(
    input_channels: u16,
    output_channels: u16,
    input: &Vec<Vec<i64>>,
    output: &mut Vec<i64>,
    input_offset: usize,
    channel_mapping: &Option<ChannelMapping>,
)
    requires
        input@.len() == input_channels as int,
        1 <= input_channels <= 11,
        1 <= output_channels <= 11,
        old(output)@.len() as int % (output_channels as int) == 0,
        channel_mapping matches Some(m) ==> m.wf(),
        forall|i: int, j: int|
            0 <= i < input@.len() && 0 <= j < input@[i]@.len() ==> -SAMPLE_LIMIT
                <= #[trigger] input@[i]@[j] <= SAMPLE_LIMIT,
        forall|k: int|
            0 <= k < old(output)@.len() ==> -OUT_LIMIT <= #[trigger] old(output)@[k] <= OUT_LIMIT,
    ensures
        mapped_routed(
            old(output)@,
            final(output)@,
            input.deep_view(),
            effective_mapping(*channel_mapping, input_channels, output_channels),
            output_channels as int,
            input_offset as int,
        ),
{
    let default_mapping = ChannelMapping::default(input_channels, output_channels);
    let map: &ChannelMapping = match channel_mapping {
        Some(m) => m,
        None => &default_mapping,
    };
    let ghost em = effective_mapping(*channel_mapping, input_channels, output_channels);
    proof {
        assert(map.slots@ =~= em);
    }
    let oc = output_channels as usize;
    let n = output.len();
    let frames = n / oc;
    let off = input_offset;
    proof {
        vstd::arithmetic::div_mod::lemma_fundamental_div_mod(n as int, oc as int);
    }
    let ghost goc = oc as int;
    let ghost goff = off as int;
    let ghost out0 = output@;
    let ghost inputs = input.deep_view();
    proof {
        assert(inputs.len() == input@.len());
        assert(forall|i: int| 0 <= i < inputs.len() ==> #[trigger] inputs[i] == input@[i]@);
    }
    let mut idx: usize = 0;
    while idx < input.len()
        invariant
            idx <= input@.len(),
            input@.len() == input_channels as int,
            1 <= input_channels <= 11,
            1 <= oc <= 11,
            map.slots@ == em,
            map.wf(),
            em.len() == 11,
            n == out0.len(),
            n as int == goc * (frames as int),
            goc == oc as int,
            goff == off as int,
            output@.len() == n,
            inputs.len() == input@.len(),
            forall|i: int| 0 <= i < inputs.len() ==> #[trigger] inputs[i] == input@[i]@,
            forall|i: int, j: int|
                0 <= i < inputs.len() && 0 <= j < inputs[i].len() ==> -SAMPLE_LIMIT
                    <= #[trigger] inputs[i][j] <= SAMPLE_LIMIT,
            forall|k: int| 0 <= k < n ==> -OUT_LIMIT <= #[trigger] out0[k] <= OUT_LIMIT,
            forall|k: int|
                0 <= k < n ==> #[trigger] output@[k] == out0[k] + gain_sum(
                    inputs,
                    em,
                    goc,
                    goff,
                    k / goc,
                    k % goc,
                    idx as int,
                ),
        decreases input@.len() - idx,
    {
        let entry: Option<Speakers> = map.get(idx);
        proof {
            assert(entry == em[idx as int]);
        }
        match entry {
            None => {
                proof {
                    assert forall|kf: int, kc: int| #[trigger] gain_sum(
                        inputs,
                        em,
                        goc,
                        goff,
                        kf,
                        kc,
                        idx + 1,
                    ) == gain_sum(inputs, em, goc, goff, kf, kc, idx as int) by {
                        assert(gain_of(inputs, em, goc, goff, kf, kc, idx as int) == 0);
                    }
                }
            },
            Some(speaker_set) => {
                let source = &input[idx];
                let ilen = source.len();
                proof {
                    assert(source@ == inputs[idx as int]);
                }
                let mut f: usize = 0;
                while f < frames
                    invariant
                        f <= frames,
                        idx < input@.len(),
                        input@.len() == input_channels as int,
                        1 <= input_channels <= 11,
                        1 <= oc <= 11,
                        em.len() == 11,
                        em[idx as int] == Some(speaker_set),
                        n == out0.len(),
                        n as int == goc * (frames as int),
                        goc == oc as int,
                        goff == off as int,
                        output@.len() == n,
                        ilen == inputs[idx as int].len(),
                        source@ == inputs[idx as int],
                        inputs.len() == input@.len(),
                        forall|i: int, j: int|
                            0 <= i < inputs.len() && 0 <= j < inputs[i].len() ==> -SAMPLE_LIMIT
                                <= #[trigger] inputs[i][j] <= SAMPLE_LIMIT,
                        forall|k: int| 0 <= k < n ==> -OUT_LIMIT <= #[trigger] out0[k] <= OUT_LIMIT,
                        forall|k: int|
                            0 <= k < n ==> #[trigger] output@[k] == out0[k] + gain_sum(
                                inputs,
                                em,
                                goc,
                                goff,
                                k / goc,
                                k % goc,
                                idx as int,
                            ) + gain_partial(inputs, em, goc, goff, k, idx as int, f as int, 0),
                    decreases frames - f,
                {
                    if (off as u128) + (f as u128) < ilen as u128 {
                        let si = off + f;
                        let value = source[si];
                        let mut c: usize = 0;
                        while c < oc
                            invariant
                                c <= oc,
                                f < frames,
                                idx < input@.len(),
                                input@.len() == input_channels as int,
                                1 <= input_channels <= 11,
                                1 <= oc <= 11,
                                em.len() == 11,
                                em[idx as int] == Some(speaker_set),
                                n == out0.len(),
                                n as int == goc * (frames as int),
                                goc == oc as int,
                                goff == off as int,
                                output@.len() == n,
                                si == off + f,
                                goff + f < inputs[idx as int].len(),
                                value == inputs[idx as int][goff + (f as int)],
                                inputs.len() == input@.len(),
                                forall|i: int, j: int|
                                    0 <= i < inputs.len() && 0 <= j < inputs[i].len() ==>
                                        -SAMPLE_LIMIT <= #[trigger] inputs[i][j] <= SAMPLE_LIMIT,
                                forall|k: int|
                                    0 <= k < n ==> -OUT_LIMIT <= #[trigger] out0[k] <= OUT_LIMIT,
                                forall|k: int|
                                    0 <= k < n ==> #[trigger] output@[k] == out0[k] + gain_sum(
                                        inputs,
                                        em,
                                        goc,
                                        goff,
                                        k / goc,
                                        k % goc,
                                        idx as int,
                                    ) + gain_partial(
                                        inputs,
                                        em,
                                        goc,
                                        goff,
                                        k,
                                        idx as int,
                                        f as int,
                                        c as int,
                                    ),
                            decreases oc - c,
                        {
                            proof {
                                assert(f * (oc as int) + c < (frames as int) * (oc as int))
                                    by (nonlinear_arith)
                                    requires
                                        0 <= c < oc,
                                        0 <= f < frames,
                                        0 < oc,
                                ;
                                assert((frames as int) * (oc as int) == n) by (nonlinear_arith)
                                    requires
                                        n as int == (oc as int) * (frames as int),
                                ;
                            }
                            let k0 = f * oc + c;
                            let routed_here = speaker_set.contains(c as u16);
                            proof {
                                vstd::arithmetic::div_mod::lemma_fundamental_div_mod_converse(
                                    k0 as int,
                                    goc,
                                    f as int,
                                    c as int,
                                );
                                assert(routed_here <==> routes(em, idx as int, c as int, goc));
                            }
                            if routed_here {
                                let cur = output[k0];
                                proof {
                                    assert(gain_partial(
                                        inputs,
                                        em,
                                        goc,
                                        goff,
                                        k0 as int,
                                        idx as int,
                                        f as int,
                                        c as int,
                                    ) == 0);
                                    lemma_gain_sum_bound(
                                        inputs,
                                        em,
                                        goc,
                                        goff,
                                        k0 as int / goc,
                                        k0 as int % goc,
                                        idx as int,
                                    );
                                    assert((idx as int) * SAMPLE_LIMIT <= 10 * SAMPLE_LIMIT)
                                        by (nonlinear_arith)
                                        requires
                                            0 <= idx as int <= 10,
                                    ;
                                }
                                output.set(k0, cur + value);
                            }
                            proof {
                                let ghost next_c = c + 1 as int;
                                assert forall|k: int| 0 <= k < n implies gain_partial(
                                    inputs,
                                    em,
                                    goc,
                                    goff,
                                    k,
                                    idx as int,
                                    f as int,
                                    next_c,
                                ) == gain_partial(
                                    inputs,
                                    em,
                                    goc,
                                    goff,
                                    k,
                                    idx as int,
                                    f as int,
                                    c as int,
                                ) + (if k == k0 as int && routed_here {
                                    value as int
                                } else {
                                    0
                                }) by {
                                    vstd::arithmetic::div_mod::lemma_fundamental_div_mod(k, goc);
                                    vstd::arithmetic::div_mod::lemma_mod_division_less_than_divisor(
                                        k,
                                        goc,
                                    );
                                    if k / goc == f as int && k % goc == c as int {
                                        assert(goc * (f as int) == (f as int) * goc)
                                            by (nonlinear_arith);
                                        assert(k == k0 as int);
                                    }
                                }
                            }
                            c = c + 1;
                        }
                        proof {
                            assert forall|k: int| 0 <= k < n implies gain_partial(
                                inputs,
                                em,
                                goc,
                                goff,
                                k,
                                idx as int,
                                f + 1 as int,
                                0,
                            ) == gain_partial(
                                inputs,
                                em,
                                goc,
                                goff,
                                k,
                                idx as int,
                                f as int,
                                oc as int,
                            ) by {
                                vstd::arithmetic::div_mod::lemma_mod_division_less_than_divisor(
                                    k,
                                    goc,
                                );
                            }
                        }
                    } else {
                        proof {
                            assert forall|k: int| 0 <= k < n implies gain_partial(
                                inputs,
                                em,
                                goc,
                                goff,
                                k,
                                idx as int,
                                f + 1 as int,
                                0,
                            ) == gain_partial(
                                inputs,
                                em,
                                goc,
                                goff,
                                k,
                                idx as int,
                                f as int,
                                0,
                            ) by {
                                vstd::arithmetic::div_mod::lemma_mod_division_less_than_divisor(
                                    k,
                                    goc,
                                );
                            }
                        }
                    }
                    f = f + 1;
                }
                proof {
                    assert forall|k: int| 0 <= k < n implies gain_sum(
                        inputs,
                        em,
                        goc,
                        goff,
                        k / goc,
                        k % goc,
                        idx + 1,
                    ) == gain_sum(inputs, em, goc, goff, k / goc, k % goc, idx as int)
                        + gain_partial(
                        inputs,
                        em,
                        goc,
                        goff,
                        k,
                        idx as int,
                        frames as int,
                        0,
                    ) by {
                        assert((oc as int) * (frames as int) == (frames as int) * (oc as int))
                            by (nonlinear_arith);
                        lemma_div_below(k, goc, frames as int);
                        vstd::arithmetic::div_mod::lemma_mod_division_less_than_divisor(k, goc);
                        assert(gain_of(inputs, em, goc, goff, k / goc, k % goc, idx as int)
                            == gain_partial(
                            inputs,
                            em,
                            goc,
                            goff,
                            k,
                            idx as int,
                            frames as int,
                            0,
                        ));
                    }
                }
            },
        }
        idx = idx + 1;
    }
    proof {
        assert(inputs.len() as int == idx as int);
    }
}

/// A sum of `k` contributions, each bounded by `SAMPLE_LIMIT`, is bounded
/// by `k * SAMPLE_LIMIT`.
pub proof fn lemma_gain_sum_bound(
    inputs: Seq<Seq<i64>>,
    m: Seq<Option<Speakers>>,
    oc: int,
    off: int,
    f: int,
    c: int,
    k: int,
)
    requires
        0 <= k <= inputs.len(),
        forall|i: int, j: int|
            0 <= i < inputs.len() && 0 <= j < inputs[i].len() ==> -SAMPLE_LIMIT
                <= #[trigger] inputs[i][j] <= SAMPLE_LIMIT,
    ensures
        -(k * SAMPLE_LIMIT) <= gain_sum(inputs, m, oc, off, f, c, k) <= k * SAMPLE_LIMIT,
    decreases k,
{
    if k > 0 {
        lemma_gain_sum_bound(inputs, m, oc, off, f, c, k - 1);
    }
}

/// Helper for the identity round-trip law: the summed contribution of the
/// first `k` input channels under the identity mapping is input channel
/// `c`'s own sample once `c < k`, and nothing otherwise.
proof fn lemma_ident_gain_sum(
    inputs: Seq<Seq<i64>>,
    m: Seq<Option<Speakers>>,
    n: u16,
    off: int,
    f: int,
    c: int,
    k: int,
)
    requires
        m.len() == 11,
        inputs.len() == n as int,
        1 <= n <= 11,
        forall|i: int| 0 <= i < 11 ==> m[i] == crate::mapping::ident_entry(n, i),
        0 <= c < n,
        0 <= f,
        0 <= off,
        0 <= k <= n,
    ensures
        gain_sum(inputs, m, n as int, off, f, c, k) == (if c < k && off + f < inputs[c].len() {
            inputs[c][off + f] as int
        } else {
            0
        }),
    decreases k,
{
    if k > 0 {
        lemma_ident_gain_sum(inputs, m, n, off, f, c, k - 1);
        let idx = k - 1;
        assert(m[idx] == crate::mapping::ident_entry(n, idx));
        crate::speakers::lemma_singleton_has(idx as u16, c as u16);
        if idx == c {
            assert(routes(m, idx, c, n as int));
        } else {
            assert(!m[idx]->Some_0.has(c as u16) || m[idx] is None || !(0 <= c < n as int));
            assert(!routes(m, idx, c, n as int));
        }
    }
}

/// Identity round-trip: routing `n` planar input channels through the
/// identity mapping onto `n` output channels contributes each input
/// channel's sample exactly to the output channel of the same ordinal and
/// nothing anywhere else, so the mapped router reproduces each input frame
/// in the corresponding output channel (added to what the buffer held).
pub proof fn lemma_identity_roundtrip(
    inputs: Seq<Seq<i64>>,
    m: Seq<Option<Speakers>>,
    n: u16,
    off: int,
    f: int,
    c: int,
)
    requires
        m.len() == 11,
        inputs.len() == n as int,
        1 <= n <= 11,
        forall|i: int| 0 <= i < 11 ==> m[i] == crate::mapping::ident_entry(n, i),
        0 <= c < n,
        0 <= f,
        0 <= off,
    ensures
        gain_sum(inputs, m, n as int, off, f, c, n as int) == (if off + f < inputs[c].len() {
            inputs[c][off + f] as int
        } else {
            0
        }),
{
    lemma_ident_gain_sum(inputs, m, n, off, f, c, n as int);
}

/// Identity round-trip over the routed buffer: after the mapped router ran
/// `n` planar input channels through the identity mapping onto `n` output
/// channels, output frame `f`, channel `c` holds exactly what it held before
/// plus input channel `c`'s frame — no cross-mixing.
pub proof fn lemma_identity_roundtrip_buffer(
    old_out: Seq<i64>,
    new_out: Seq<i64>,
    inputs: Seq<Seq<i64>>,
    m: Seq<Option<Speakers>>,
    n: u16,
    off: int,
    f: int,
    c: int,
)
    requires
        mapped_routed(old_out, new_out, inputs, m, n as int, off),
        m.len() == 11,
        inputs.len() == n as int,
        1 <= n <= 11,
        forall|i: int| 0 <= i < 11 ==> m[i] == crate::mapping::ident_entry(n, i),
        0 <= c < n,
        0 <= f,
        0 <= off,
        0 <= f * (n as int) + c < old_out.len(),
        off + f < inputs[c].len(),
    ensures
        new_out[f * (n as int) + c] == old_out[f * (n as int) + c] + inputs[c][off + f],
{
    let k = f * (n as int) + c;
    assert((n as int) * f == f * (n as int)) by (nonlinear_arith);
    vstd::arithmetic::div_mod::lemma_fundamental_div_mod_converse(k, n as int, f, c);
    lemma_identity_roundtrip(inputs, m, n, off, f, c);
}

/// Mono broadcast over the routed buffer: after the mapped router ran a
/// one-channel input through the default mapping, every output channel of
/// every frame holds what it held before plus the same single input sample.
pub proof fn lemma_mono_broadcast_buffer(
    old_out: Seq<i64>,
    new_out: Seq<i64>,
    inputs: Seq<Seq<i64>>,
    m: Seq<Option<Speakers>>,
    oc: u16,
    off: int,
    f: int,
    c: int,
)
    requires
        mapped_routed(old_out, new_out, inputs, m, oc as int, off),
        m.len() == 11,
        inputs.len() == 1,
        1 <= oc <= 11,
        forall|i: int| 0 <= i < 11 ==> m[i] == default_entry(1, oc, i),
        0 <= c < oc,
        0 <= f,
        0 <= off,
        0 <= f * (oc as int) + c < old_out.len(),
        off + f < inputs[0].len(),
    ensures
        new_out[f * (oc as int) + c] == old_out[f * (oc as int) + c] + inputs[0][off + f],
{
    let k = f * (oc as int) + c;
    assert((oc as int) * f == f * (oc as int)) by (nonlinear_arith);
    vstd::arithmetic::div_mod::lemma_fundamental_div_mod_converse(k, oc as int, f, c);
    lemma_mono_broadcast(inputs, m, oc, off, f, c);
}

/// Mono broadcast: with a one-channel input and the default mapping for one
/// input channel, every output channel of every frame gains exactly the
/// single input channel's sample (or nothing where the source has run out).
pub proof fn lemma_mono_broadcast(
    inputs: Seq<Seq<i64>>,
    m: Seq<Option<Speakers>>,
    oc: u16,
    off: int,
    f: int,
    c: int,
)
    requires
        m.len() == 11,
        inputs.len() == 1,
        1 <= oc <= 11,
        forall|i: int| 0 <= i < 11 ==> m[i] == default_entry(1, oc, i),
        0 <= c < oc,
        0 <= f,
        0 <= off,
    ensures
        gain_sum(inputs, m, oc as int, off, f, c, 1) == (if off + f < inputs[0].len() {
            inputs[0][off + f] as int
        } else {
            0
        }),
{
    crate::speakers::lemma_low_mask_has(oc);
    assert(m[0] == default_entry(1, oc, 0));
    assert(m[0]->Some_0.has(c as u16));
    assert(routes(m, 0, c, oc as int));
    assert(gain_sum(inputs, m, oc as int, off, f, c, 0) == 0);
    assert(gain_sum(inputs, m, oc as int, off, f, c, 1) == gain_of(
        inputs,
        m,
        oc as int,
        off,
        f,
        c,
        0,
    ));
}

} // verus!
