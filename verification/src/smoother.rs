//! Gain smoother: an owned smoothing state that walks the current gain toward
//! an asynchronously set target, one value per sample frame.
//!
//! Each step replaces the current value by the convex combination
//! `current*weight + target*(FX_ONE - weight)` (floor-rounded), so the value
//! approaches the target monotonically, never overshoots, and never jumps
//! discontinuously mid-block. The weight is derived from the sample rate and a
//! fixed time constant, independent of block size.

use vstd::prelude::*;
use crate::fixed::FX_ONE;
use crate::fixed::GAIN_LIMIT;
use crate::fixed::fx_lerp;
use crate::fixed::fx_lerp_spec;
use crate::fixed::lemma_fx_lerp_bounds;

verus! {

/// Smoothing state for one scalar parameter, Q16.16.
pub struct Smoother {
    /// The most recently produced gain value.
    pub current: i64,
    /// The target the trajectory is heading for.
    pub target: i64,
    /// Per-sample smoothing coefficient in [0, FX_ONE]; larger means slower.
    pub weight: i64,
}

impl Smoother {
    /// Well-formed: gain values within the declared range, weight a ratio.
    pub open spec fn wf(self) -> bool {
        &&& 0 <= self.current <= GAIN_LIMIT
        &&& 0 <= self.target <= GAIN_LIMIT
        &&& 0 <= self.weight <= FX_ONE
    }

    /// The state after producing one smoothed value.
    pub open spec fn stepped(self) -> Smoother {
        Smoother {
            current: fx_lerp_spec(self.current as int, self.target as int, self.weight as int)
                as i64,
            ..self
        }
    }

    /// A fresh smoother, converged at unity gain, with the slowest weight
    /// (no movement) until a sample rate is known.
    pub fn new() -> (s: Smoother)
        ensures
            s == (Smoother { current: FX_ONE, target: FX_ONE, weight: FX_ONE }),
            s.wf(),
    {
        Smoother { current: FX_ONE, target: FX_ONE, weight: FX_ONE }
    }

    /// Narrow setter for the smoothing target; takes effect from the next
    /// produced value on, never retroactively.
    pub fn set_target(&mut self, target: i64)
        requires
            old(self).wf(),
            0 <= target <= GAIN_LIMIT,
        ensures
            *final(self) == (Smoother { target: target, ..*old(self) }),
            final(self).wf(),
    {
        self.target = target;
    }

    /// Produce the gain for the next sample frame, advancing the trajectory
    /// one step toward the target: monotonic, no overshoot.
    pub fn next_value(&mut self) -> (g: i64)
        requires
            old(self).wf(),
        ensures
            *final(self) == old(self).stepped(),
            final(self).wf(),
            g == final(self).current,
            old(self).current <= old(self).target ==> old(self).current <= g <= old(
                self,
            ).target,
            old(self).target <= old(self).current ==> old(self).target <= g <= old(
                self,
            ).current,
    {
        proof {
            lemma_fx_lerp_bounds(self.current as int, self.target as int, self.weight as int);
        }
        let g: i64 = fx_lerp(self.current, self.target, self.weight);
        self.current = g;
        g
    }
}

} // verus!
