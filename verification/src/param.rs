//! A single smoothed control parameter.
//!
//! `current` glides toward `target` by a one-pole low-pass step once per
//! sample, and `modulation` accumulates the modulation routed to the
//! parameter during the current sample only: every smoothing step clears it.

use vstd::prelude::*;
use crate::fixed::{
    div_down, abs_val, lemma_div_down_scaled_bounds, lemma_div_down_at_least_one, UNIT,
    PARAM_LIMIT,
};

verus! {

/// A scalar control value with a smoothing target and a per-sample
/// modulation accumulator, in fixed-point micro-units.
#[derive(Clone, Copy, PartialEq, Eq, Structural, Debug)]
pub struct Param {
    pub current: i64,
    pub target: i64,
    pub modulation: i64,
}

/// Two routes of at most unit depth and unit-bounded sources can add at
/// most two units to a modulation accumulator in one sample.
pub const MOD_LIMIT: i64 = 2_000_000;

impl Param {
    /// All three fields stay in ranges that keep every product the render
    /// loop forms inside `i64`.
    pub open spec fn wf(self) -> bool {
        &&& -PARAM_LIMIT <= self.current <= PARAM_LIMIT
        &&& -PARAM_LIMIT <= self.target <= PARAM_LIMIT
        &&& -MOD_LIMIT <= self.modulation <= MOD_LIMIT
    }

    /// A fresh parameter: `current` and `target` both at `value`, no
    /// pending modulation.
    pub fn new(value: i64) -> (p: Param)
        requires
            -PARAM_LIMIT <= value <= PARAM_LIMIT,
        ensures
            p == spec_param_new(value as int),
            p.wf(),
    {
        Param { current: value, target: value, modulation: 0 }
    }

    /// One smoothing step: move `current` toward `target` by the fraction
    /// `coeff / UNIT` of the remaining distance, and clear the per-sample
    /// modulation accumulator.
    pub fn smooth(&mut self, coeff: i64)
        requires
            old(self).wf(),
            0 <= coeff <= UNIT,
        ensures
            *final(self) == spec_smooth(*old(self), coeff as int),
            final(self).wf(),
    {
        proof {
            lemma_div_down_scaled_bounds(
                self.target - self.current,
                coeff as int,
                UNIT as int,
            );
        }
        let diff = self.target - self.current;
        let step = (diff * coeff) / UNIT;
        self.current = self.current + step;
        self.modulation = 0;
    }

    /// Move only the target; `current` glides toward it over the next
    /// samples.
    pub fn set_target(&mut self, value: i64)
        requires
            old(self).wf(),
            -PARAM_LIMIT <= value <= PARAM_LIMIT,
        ensures
            final(self).target == value,
            final(self).current == old(self).current,
            final(self).modulation == old(self).modulation,
            final(self).wf(),
    {
        self.target = value;
    }

    /// Replace both `current` and `target` at once: an instantaneous,
    /// non-smoothed reinitialization of the parameter.
    pub fn set_absolute(&mut self, value: i64)
        requires
            old(self).wf(),
            -PARAM_LIMIT <= value <= PARAM_LIMIT,
        ensures
            *final(self) == spec_param_new(value as int),
            final(self).wf(),
    {
        self.current = value;
        self.target = value;
        self.modulation = 0;
    }
}

/// The value of a freshly (re)initialized parameter.
pub open spec fn spec_param_new(value: int) -> Param {
    Param { current: value as i64, target: value as i64, modulation: 0 }
}

/// The one-pole smoothing step on the abstract parameter value.
pub open spec fn spec_smooth(p: Param, coeff: int) -> Param {
    Param {
        current: (p.current + div_down((p.target - p.current) * coeff, UNIT as int)) as i64,
        target: p.target,
        modulation: 0,
    }
}

/// Smoothing keeps a parameter well formed: the new value lies between
/// the old value and the target, and the modulation accumulator is clear.
pub proof fn lemma_spec_smooth_wf(p: Param, coeff: int)
    requires
        p.wf(),
        0 <= coeff <= UNIT,
    ensures
        spec_smooth(p, coeff).wf(),
        spec_smooth(p, coeff).modulation == 0,
        spec_smooth(p, coeff).target == p.target,
{
    lemma_div_down_scaled_bounds(p.target - p.current, coeff, UNIT as int);
}

/// Repeated smoothing with a fixed target converges monotonically toward
/// the target: the distance `|current - target|` never grows, the new
/// value never overshoots, and while the distance is at least
/// `UNIT / coeff` (the fixed-point tolerance, below which a step rounds
/// to zero) the distance strictly shrinks on every call.
pub proof fn lemma_smooth_converges(p: Param, coeff: int)
    requires
        p.wf(),
        0 < coeff <= UNIT,
    ensures
        abs_val(spec_smooth(p, coeff).current - p.target) <= abs_val(p.current - p.target),
        p.current <= p.target ==> p.current <= spec_smooth(p, coeff).current <= p.target,
        p.target <= p.current ==> p.target <= spec_smooth(p, coeff).current <= p.current,
        abs_val(p.current - p.target) * coeff >= UNIT ==> abs_val(
            spec_smooth(p, coeff).current - p.target,
        ) < abs_val(p.current - p.target),
{
    let diff = p.target - p.current;
    let step = div_down(diff * coeff, UNIT as int);
    lemma_div_down_scaled_bounds(diff, coeff, UNIT as int);
    if abs_val(p.current - p.target) * coeff >= UNIT {
        if diff >= 0 {
            assert(diff * coeff == abs_val(p.current - p.target) * coeff);
            lemma_div_down_at_least_one(diff * coeff, UNIT as int);
        } else {
            assert((-diff) * coeff == abs_val(p.current - p.target) * coeff)
                by (nonlinear_arith)
                requires
                    diff < 0,
                    abs_val(p.current - p.target) == -diff,
            ;
            lemma_div_down_at_least_one((-diff) * coeff, UNIT as int);
            assert(diff * coeff == -((-diff) * coeff)) by (nonlinear_arith);
            assert(step <= -1);
        }
    }
}

} // verus!
