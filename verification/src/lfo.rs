//! The low-frequency oscillator.
//!
//! A free-running sine generator with the same phase-accumulation rule as
//! the audio oscillator, used only as a modulation source in
//! `[-UNIT, UNIT]`; it never writes to the audio output directly.

use vstd::prelude::*;
use crate::fixed::{spec_sine, sine_fp, UNIT, PARAM_LIMIT};

verus! {

/// The modulation oscillator: a wrapped phase and its own rate, fixed to
/// a sine shape.
#[derive(Clone, Copy, PartialEq, Eq, Structural, Debug)]
pub struct Lfo {
    pub phase: i64,
    pub freq: i64,
}

/// The LFO one sample later: phase advanced by `freq / sample_rate` of a
/// cycle, wrapped back into `[0, UNIT)`.
pub open spec fn spec_lfo_advance(l: Lfo, sr: int) -> Lfo {
    Lfo { phase: ((l.phase + (l.freq as int) / sr) % (UNIT as int)) as i64, freq: l.freq }
}

/// Advancing the LFO keeps its phase wrapped and its rate untouched.
pub proof fn lemma_spec_lfo_advance_wf(l: Lfo, sr: int)
    requires
        l.wf(),
        sr >= 1,
    ensures
        spec_lfo_advance(l, sr).wf(),
        spec_lfo_advance(l, sr).freq == l.freq,
{
    vstd::arithmetic::div_mod::lemma_div_pos_is_pos(l.freq as int, sr);
    vstd::arithmetic::div_mod::lemma_mod_division_less_than_divisor(
        l.phase + (l.freq as int) / sr,
        UNIT as int,
    );
}

impl Lfo {
    /// The phase stays wrapped inside one cycle and the rate stays
    /// non-negative and bounded.
    pub open spec fn wf(self) -> bool {
        &&& 0 <= self.phase < UNIT
        &&& 0 <= self.freq <= PARAM_LIMIT
    }

    /// A fresh LFO: phase zero, 440 units-per-second rate.
    pub fn new() -> (l: Lfo)
        ensures
            l == (Lfo { phase: 0, freq: 440_000_000 }),
            l.wf(),
    {
        Lfo { phase: 0, freq: 440_000_000 }
    }

    /// Return the sine value at the current phase, then advance the
    /// phase: the value returned reflects the phase before this call's
    /// increment.
    pub fn next(&mut self, sample_rate: u32) -> (out: i64)
        requires
            old(self).wf(),
            sample_rate >= 1,
        ensures
            out == spec_sine(old(self).phase as int),
            -UNIT <= out <= UNIT,
            *final(self) == spec_lfo_advance(*old(self), sample_rate as int),
            final(self).wf(),
    {
        let out = sine_fp(self.phase);
        let inc = self.freq / (sample_rate as i64);
        proof {
            vstd::arithmetic::div_mod::lemma_div_pos_is_pos(
                self.freq as int,
                sample_rate as int,
            );
            vstd::arithmetic::div_mod::lemma_div_nonincreasing(
                self.freq as int,
                sample_rate as int,
            );
            vstd::arithmetic::div_mod::lemma_mod_division_less_than_divisor(
                self.phase + inc,
                UNIT as int,
            );
        }
        self.phase = (self.phase + inc) % UNIT;
        out
    }
}

} // verus!
