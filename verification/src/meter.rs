//! Peak meter: a decaying loudness estimate derived from processed samples.
//!
//! The update rule is instant attack, exponential release: a louder block
//! replaces the estimate at once, a quieter one pulls it down by the decay
//! weight. The weight is chosen so that, fed silence, the estimate falls to a
//! quarter (about -12 dB) of its value within the decay window.

use vstd::prelude::*;
use crate::fixed::AMP_LIMIT;
use crate::fixed::FX_ONE;
use crate::fixed::FX_QUARTER;
use crate::fixed::fx_lerp;
use crate::fixed::fx_lerp_spec;
use crate::fixed::fx_pow_spec;
use crate::fixed::fx_root;
use crate::fixed::lemma_fx_lerp_bounds;

verus! {

/// Mathematical meter update: instant attack, exponential release.
pub open spec fn meter_update_spec(cur: int, amp: int, w: int) -> int {
    if amp > cur {
        amp
    } else {
        fx_lerp_spec(cur, amp, w)
    }
}

/// Number of sample frames in a decay window of `decay_ms` milliseconds.
pub open spec fn decay_steps_spec(sample_rate: int, decay_ms: int) -> int {
    sample_rate * decay_ms / 1000
}

/// What it means for `w` to be the decay weight of a window: the greatest
/// ratio whose power over the window's frames still lies at or below one
/// quarter. A degenerate window (shorter than one frame) decays instantly.
pub open spec fn is_decay_weight(sample_rate: int, decay_ms: int, w: int) -> bool {
    let steps = decay_steps_spec(sample_rate, decay_ms);
    &&& 0 <= w < FX_ONE
    &&& (steps == 0 ==> w == 0)
    &&& (steps >= 1 ==> fx_pow_spec(w, steps as nat) <= FX_QUARTER && FX_QUARTER < fx_pow_spec(
        w + 1,
        steps as nat,
    ))
}

/// Derive the per-sample decay weight from the sample rate and the decay
/// window, as the discrete root of one quarter over the window's frames.
pub fn decay_weight(sample_rate: u32, decay_ms: u32) -> (w: i64)
    ensures
        is_decay_weight(sample_rate as int, decay_ms as int, w as int),
{
    assert(0 <= (sample_rate as int) * (decay_ms as int) && (sample_rate as int) * (
    decay_ms as int) <= 4294967295 * 4294967295) by (nonlinear_arith)
        requires
            0 <= sample_rate <= 4294967295,
            0 <= decay_ms <= 4294967295,
    ;
    let steps: u64 = ((sample_rate as u64) * (decay_ms as u64)) / 1000;
    if steps == 0 {
        0
    } else {
        fx_root(FX_QUARTER, steps)
    }
}

/// One meter update from the mean absolute amplitude of a block.
pub fn meter_update(cur: i64, amp: i64, w: i64) -> (r: i64)
    requires
        0 <= cur <= AMP_LIMIT,
        0 <= amp <= AMP_LIMIT,
        0 <= w <= FX_ONE,
    ensures
        r == meter_update_spec(cur as int, amp as int, w as int),
        0 <= r <= AMP_LIMIT,
        amp > cur ==> r == amp,
        amp <= cur ==> amp <= r <= cur,
{
    if amp > cur {
        amp
    } else {
        fx_lerp(cur, amp, w)
    }
}

/// The estimate after feeding `n` silent blocks.
pub open spec fn meter_after_silence(cur: int, w: int, n: nat) -> int
    decreases n,
{
    if n == 0 {
        cur
    } else {
        meter_update_spec(meter_after_silence(cur, w, (n - 1) as nat), 0, w)
    }
}

/// Law: one silent update never raises the estimate and keeps it
/// non-negative.
pub proof fn lemma_meter_silence_step(cur: int, w: int)
    requires
        0 <= cur,
        0 <= w <= FX_ONE,
    ensures
        0 <= meter_update_spec(cur, 0, w) <= cur,
{
    lemma_fx_lerp_bounds(cur, 0, w);
}

/// Law: fed silence repeatedly, the published estimate decreases
/// monotonically and never rises above where it started nor below zero.
pub proof fn lemma_meter_silence_monotone(cur: int, w: int, n: nat)
    requires
        0 <= cur,
        0 <= w <= FX_ONE,
    ensures
        0 <= meter_after_silence(cur, w, n) <= cur,
        meter_after_silence(cur, w, (n + 1) as nat) <= meter_after_silence(cur, w, n),
    decreases n,
{
    if n == 0 {
        lemma_meter_silence_step(cur, w);
    } else {
        lemma_meter_silence_monotone(cur, w, (n - 1) as nat);
        lemma_meter_silence_step(meter_after_silence(cur, w, (n - 1) as nat), w);
        lemma_meter_silence_step(meter_after_silence(cur, w, n), w);
    }
}

} // verus!
