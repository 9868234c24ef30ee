//! Block amplitude: the loudness figure the peak meter is fed with.
//!
//! Per frame, the signed samples of all participating channels are summed;
//! the block's amplitude is the mean of the absolute frame sums, divided by
//! the number of participating channels — the fixed-point counterpart of the
//! per-frame mean the meter watches.

use vstd::prelude::*;
use vstd::arithmetic::div_mod::lemma_div_is_ordered;
use vstd::arithmetic::div_mod::lemma_div_by_multiple;
use crate::fixed::AMP_LIMIT;
use crate::block::AudioPort;
use crate::block::Channel;
use crate::block::MAX_BLOCK_LEN;
use crate::block::MAX_CHANNELS;
use crate::block::Pairing;
use crate::block::writable;

verus! {

/// Absolute value.
pub open spec fn abs_spec(x: int) -> int {
    if x >= 0 {
        x
    } else {
        -x
    }
}

/// Signed sum of the participating channels' samples at frame `t`, over the
/// first `c` channels.
pub open spec fn frame_sum(chs: Seq<Channel>, t: int, c: int) -> int
    decreases c,
{
    if c <= 0 {
        0
    } else {
        frame_sum(chs, t, c - 1) + if writable(chs[c - 1].pairing) {
            chs[c - 1].output@[t] as int
        } else {
            0
        }
    }
}

/// Sum of the absolute frame sums over the first `t` frames.
pub open spec fn total_abs(chs: Seq<Channel>, t: int) -> int
    decreases t,
{
    if t <= 0 {
        0
    } else {
        total_abs(chs, t - 1) + abs_spec(frame_sum(chs, t - 1, chs.len() as int))
    }
}

/// Number of participating channels among the first `c`.
pub open spec fn writable_count(chs: Seq<Channel>, c: int) -> int
    decreases c,
{
    if c <= 0 {
        0
    } else {
        writable_count(chs, c - 1) + if writable(chs[c - 1].pairing) {
            1int
        } else {
            0int
        }
    }
}

/// The block's mean absolute amplitude: total of absolute frame sums over
/// frames and participating channels. Zero when nothing participates or the
/// block is empty.
pub open spec fn amplitude_spec(chs: Seq<Channel>, len: int) -> int {
    let wc = writable_count(chs, chs.len() as int);
    if len <= 0 || wc <= 0 {
        0
    } else {
        total_abs(chs, len) / (len * wc)
    }
}

/// The writable count is bounded by the channel count.
pub proof fn lemma_wc_bounds(chs: Seq<Channel>, c: int)
    ensures
        0 <= writable_count(chs, c) <= if c <= 0 {
            0
        } else {
            c
        },
    decreases c,
{
    if c > 0 {
        lemma_wc_bounds(chs, c - 1);
    }
}

/// The frame sum over participating channels is bounded by the writable
/// count times the sample bound.
proof fn lemma_frame_sum_bounds(chs: Seq<Channel>, t: int, c: int, len: int)
    requires
        0 <= t < len,
        0 <= c <= chs.len(),
        forall|k: int| 0 <= k < chs.len() ==> (#[trigger] chs[k]).wf(len, AMP_LIMIT as int),
    ensures
        -writable_count(chs, c) * (AMP_LIMIT as int) <= frame_sum(chs, t, c) <= writable_count(
            chs,
            c,
        ) * (AMP_LIMIT as int),
    decreases c,
{
    lemma_wc_bounds(chs, c);
    if c > 0 {
        lemma_frame_sum_bounds(chs, t, c - 1, len);
        let w0 = writable_count(chs, c - 1);
        let w1 = writable_count(chs, c);
        assert(w0 * (AMP_LIMIT as int) + (AMP_LIMIT as int) == (w0 + 1) * (AMP_LIMIT as int))
            by (nonlinear_arith);
        assert(-(w0 * (AMP_LIMIT as int)) - (AMP_LIMIT as int) == -((w0 + 1) * (
        AMP_LIMIT as int))) by (nonlinear_arith);
    }
}

/// Amplitude of one resolved, processed port: mean absolute frame sum per
/// participating channel. The exact fixed-point mean, never negative, never
/// beyond the processed-sample bound.
#[verifier::loop_isolation(false)]
pub fn port_amplitude(ap: &AudioPort, len: usize) -> (amp: i64)
    requires
        ap.wf(len as int, AMP_LIMIT as int),
        len <= MAX_BLOCK_LEN,
    ensures
        amp == amplitude_spec(ap.channels@, len as int),
        0 <= amp <= AMP_LIMIT,
{
    let ghost chs = ap.channels@;
    let nch: usize = ap.channels.len();

    let mut wc: usize = 0;
    let mut c: usize = 0;
    while c < nch
        invariant
            c <= nch,
            wc == writable_count(chs, c as int),
            wc <= c,
        decreases nch - c,
    {
        let pr: Pairing = ap.channels[c].pairing;
        if pr == Pairing::InPlace || pr == Pairing::InputOutput {
            wc = wc + 1;
        }
        c = c + 1;
    }
    if wc == 0 || len == 0 {
        return 0;
    }

    let ghost frame_cap = writable_count(chs, chs.len() as int) * (AMP_LIMIT as int);
    proof {
        lemma_wc_bounds(chs, chs.len() as int);
        assert(frame_cap <= (MAX_CHANNELS as int) * (AMP_LIMIT as int)) by (nonlinear_arith)
            requires
                0 <= writable_count(chs, chs.len() as int) <= MAX_CHANNELS as int,
                frame_cap == writable_count(chs, chs.len() as int) * (AMP_LIMIT as int),
        ;
    }
    let mut total: i128 = 0;
    let mut t: usize = 0;
    while t < len
        invariant
            t <= len,
            total == total_abs(chs, t as int),
            0 <= total <= (t as int) * frame_cap,
        decreases len - t,
    {
        let mut fs: i128 = 0;
        let mut c2: usize = 0;
        while c2 < nch
            invariant
                c2 <= nch,
                fs == frame_sum(chs, t as int, c2 as int),
                -writable_count(chs, c2 as int) * (AMP_LIMIT as int) <= fs as int
                    <= writable_count(chs, c2 as int) * (AMP_LIMIT as int),
            decreases nch - c2,
        {
            proof {
                lemma_wc_bounds(chs, c2 as int);
                lemma_frame_sum_bounds(chs, t as int, c2 as int + 1, len as int);
            }
            let pr: Pairing = ap.channels[c2].pairing;
            if pr == Pairing::InPlace || pr == Pairing::InputOutput {
                let v: i64 = ap.channels[c2].output[t];
                fs = fs + (v as i128);
            }
            c2 = c2 + 1;
        }
        let af: i128 = if fs < 0 {
            -fs
        } else {
            fs
        };
        proof {
            lemma_frame_sum_bounds(chs, t as int, nch as int, len as int);
            assert(0 <= af as int <= frame_cap);
            assert((t as int) * frame_cap + frame_cap == (t as int + 1) * frame_cap)
                by (nonlinear_arith);
            assert((t as int + 1) * frame_cap <= (MAX_BLOCK_LEN as int) * ((MAX_CHANNELS as int)
                * (AMP_LIMIT as int))) by (nonlinear_arith)
                requires
                    0 <= t as int + 1 <= MAX_BLOCK_LEN as int,
                    0 <= frame_cap <= (MAX_CHANNELS as int) * (AMP_LIMIT as int),
            ;
        }
        total = total + af;
        t = t + 1;
    }
    proof {
        assert((len as int) * (wc as int) <= (MAX_BLOCK_LEN as int) * (MAX_CHANNELS as int))
            by (nonlinear_arith)
            requires
                0 <= len <= MAX_BLOCK_LEN as int,
                0 <= wc <= MAX_CHANNELS as int,
        ;
    }
    let denom: u128 = (len as u128) * (wc as u128);
    proof {
        assert((len as int) * (wc as int) >= 1) by (nonlinear_arith)
            requires
                len >= 1,
                wc >= 1,
        ;
        assert(total as int <= ((len as int) * (wc as int)) * (AMP_LIMIT as int))
            by (nonlinear_arith)
            requires
                total as int <= (len as int) * frame_cap,
                frame_cap == (wc as int) * (AMP_LIMIT as int),
        ;
        lemma_div_is_ordered(
            total as int,
            ((len as int) * (wc as int)) * (AMP_LIMIT as int),
            (len as int) * (wc as int),
        );
        lemma_div_by_multiple(AMP_LIMIT as int, (len as int) * (wc as int));
        assert((AMP_LIMIT as int) * ((len as int) * (wc as int)) == ((len as int) * (
        wc as int)) * (AMP_LIMIT as int)) by (nonlinear_arith);
        lemma_div_is_ordered(0, total as int, (len as int) * (wc as int));
    }
    let q: u128 = (total as u128) / denom;
    q as i64
}

} // verus!
