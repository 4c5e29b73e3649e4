//! The audio-rate oscillator.
//!
//! A phase accumulator in `[0, UNIT)` advanced by `frequency / sample_rate`
//! per sample, read through one of four waveforms.  Each waveform carries a
//! fixed normalization gain so perceived loudness is roughly equal across
//! waveforms.

use vstd::prelude::*;
use crate::fixed::{
    div_down, abs_val, spec_sine, sine_fp, lemma_sine_bounds, lemma_div_down_abs_bound,
    UNIT, HALF_UNIT, PARAM_LIMIT,
};

verus! {

/// Normalization gain of the sine waveform (1.0).
pub const SINE_GAIN: i64 = 1_000_000;

/// Normalization gain of the square waveform (0.7071).  The square is
/// deliberately asymmetric: its high arm is the full gain, its low arm a
/// tenth of it, negated.
pub const SQUARE_GAIN: i64 = 707_100;

/// Normalization gain of the triangle waveform (1.2247).
pub const TRIANGLE_GAIN: i64 = 1_224_700;

/// Normalization gain of the saw waveform (1.2247).
pub const SAW_GAIN: i64 = 1_224_700;

/// The largest magnitude any waveform reaches: the triangle and saw gain.
pub const MAX_AMPLITUDE: i64 = 1_224_700;

/// The four audio waveforms.
#[derive(Clone, Copy, PartialEq, Eq, Structural, Debug)]
pub enum WaveForm {
    Sine,
    Square,
    Triangle,
    Saw,
}

/// The audio-rate waveform generator.
#[derive(Clone, Copy, PartialEq, Eq, Structural, Debug)]
pub struct Oscillator {
    pub phase: i64,
    pub waveform: WaveForm,
}

/// The normalization gain of each waveform, the bound on the magnitude of
/// every sample it produces.
pub open spec fn spec_waveform_gain(w: WaveForm) -> int {
    match w {
        WaveForm::Sine => SINE_GAIN as int,
        WaveForm::Square => SQUARE_GAIN as int,
        WaveForm::Triangle => TRIANGLE_GAIN as int,
        WaveForm::Saw => SAW_GAIN as int,
    }
}

/// The instantaneous waveform value at the oscillator's current phase,
/// with the waveform's normalization gain applied.
pub open spec fn spec_osc_sample(o: Oscillator) -> int {
    match o.waveform {
        WaveForm::Sine => spec_sine(o.phase as int),
        WaveForm::Square => if o.phase < HALF_UNIT {
            SQUARE_GAIN as int
        } else {
            -((SQUARE_GAIN as int) / 10)
        },
        WaveForm::Triangle => div_down(
            (UNIT - 4 * abs_val(o.phase - HALF_UNIT)) * TRIANGLE_GAIN,
            UNIT as int,
        ),
        WaveForm::Saw => div_down((2 * o.phase - UNIT) * SAW_GAIN, UNIT as int),
    }
}

/// The oscillator one sample later: phase advanced by
/// `frequency / sample_rate` of a cycle, wrapped back into `[0, UNIT)`.
pub open spec fn spec_osc_advance(o: Oscillator, freq: int, sr: int) -> Oscillator {
    Oscillator { phase: ((o.phase + freq / sr) % (UNIT as int)) as i64, waveform: o.waveform }
}

/// The oscillator after `n` samples at a constant frequency.
pub open spec fn spec_osc_run(o: Oscillator, freq: int, sr: int, n: nat) -> Oscillator
    decreases n,
{
    if n == 0 {
        o
    } else {
        spec_osc_run(spec_osc_advance(o, freq, sr), freq, sr, (n - 1) as nat)
    }
}

/// No waveform sample leaves the range set by its normalization gain.
pub proof fn lemma_sample_bounded(o: Oscillator)
    requires
        o.wf(),
    ensures
        abs_val(spec_osc_sample(o)) <= spec_waveform_gain(o.waveform),
        spec_waveform_gain(o.waveform) <= MAX_AMPLITUDE,
{
    match o.waveform {
        WaveForm::Sine => {
            lemma_sine_bounds(o.phase as int);
        },
        WaveForm::Square => {},
        WaveForm::Triangle => {
            let t = UNIT - 4 * abs_val(o.phase - HALF_UNIT);
            assert(-(TRIANGLE_GAIN * UNIT) <= t * TRIANGLE_GAIN <= TRIANGLE_GAIN * UNIT)
                by (nonlinear_arith)
                requires
                    -UNIT <= t <= UNIT,
            ;
            lemma_div_down_abs_bound(t * TRIANGLE_GAIN, TRIANGLE_GAIN as int, UNIT as int);
        },
        WaveForm::Saw => {
            let t = 2 * o.phase - UNIT;
            assert(-(SAW_GAIN * UNIT) <= t * SAW_GAIN <= SAW_GAIN * UNIT) by (nonlinear_arith)
                requires
                    -UNIT <= t <= UNIT,
            ;
            lemma_div_down_abs_bound(t * SAW_GAIN, SAW_GAIN as int, UNIT as int);
        },
    }
}

impl Oscillator {
    /// The phase always stays wrapped inside one cycle.
    pub open spec fn wf(self) -> bool {
        0 <= self.phase < UNIT
    }

    /// A fresh oscillator: phase zero, sine waveform.
    pub fn new() -> (o: Oscillator)
        ensures
            o == (Oscillator { phase: 0, waveform: WaveForm::Sine }),
            o.wf(),
    {
        Oscillator { phase: 0, waveform: WaveForm::Sine }
    }

    /// The instantaneous waveform value at the current phase.
    pub fn sample(&self) -> (r: i64)
        requires
            self.wf(),
        ensures
            r == spec_osc_sample(*self),
            abs_val(r as int) <= spec_waveform_gain(self.waveform),
            -MAX_AMPLITUDE <= r <= MAX_AMPLITUDE,
    {
        proof {
            lemma_sample_bounded(*self);
        }
        match self.waveform {
            WaveForm::Sine => sine_fp(self.phase),
            WaveForm::Square => if self.phase < HALF_UNIT {
                SQUARE_GAIN
            } else {
                -(SQUARE_GAIN / 10)
            },
            WaveForm::Triangle => {
                let d = if self.phase >= HALF_UNIT {
                    self.phase - HALF_UNIT
                } else {
                    HALF_UNIT - self.phase
                };
                (UNIT - 4 * d) * TRIANGLE_GAIN / UNIT
            },
            WaveForm::Saw => (2 * self.phase - UNIT) * SAW_GAIN / UNIT,
        }
    }

    /// Return the sample for the current phase, then advance the phase by
    /// `freq / sample_rate` of a cycle, wrapping into `[0, UNIT)`: the
    /// value returned reflects the phase before this call's increment.
    pub fn next(&mut self, freq: i64, sample_rate: u32) -> (out: i64)
        requires
            old(self).wf(),
            sample_rate >= 1,
            0 <= freq <= PARAM_LIMIT,
        ensures
            out == spec_osc_sample(*old(self)),
            abs_val(out as int) <= spec_waveform_gain(old(self).waveform),
            *final(self) == spec_osc_advance(*old(self), freq as int, sample_rate as int),
            final(self).wf(),
    {
        let out = self.sample();
        let inc = freq / (sample_rate as i64);
        proof {
            vstd::arithmetic::div_mod::lemma_div_pos_is_pos(freq as int, sample_rate as int);
            vstd::arithmetic::div_mod::lemma_div_nonincreasing(freq as int, sample_rate as int);
            vstd::arithmetic::div_mod::lemma_mod_division_less_than_divisor(
                self.phase + inc,
                UNIT as int,
            );
        }
        self.phase = (self.phase + inc) % UNIT;
        out
    }
}

/// Advancing the oscillator keeps its phase wrapped and its waveform
/// untouched.
pub proof fn lemma_spec_osc_advance_wf(o: Oscillator, freq: int, sr: int)
    requires
        o.wf(),
        0 <= freq,
        sr >= 1,
    ensures
        spec_osc_advance(o, freq, sr).wf(),
        spec_osc_advance(o, freq, sr).waveform == o.waveform,
{
    vstd::arithmetic::div_mod::lemma_div_pos_is_pos(freq, sr);
    vstd::arithmetic::div_mod::lemma_mod_division_less_than_divisor(
        o.phase + freq / sr,
        UNIT as int,
    );
}

/// Law: after `n` samples at constant frequency the phase is exactly the
/// starting phase plus `n` increments, wrapped into one cycle, and the
/// waveform is untouched.
pub proof fn lemma_phase_evolution(o: Oscillator, freq: int, sr: int, n: nat)
    requires
        o.wf(),
        sr >= 1,
        0 <= freq,
    ensures
        (#[trigger] spec_osc_run(o, freq, sr, n)).phase == (o.phase + n * (freq / sr)) % (
        UNIT as int),
        spec_osc_run(o, freq, sr, n).waveform == o.waveform,
        spec_osc_run(o, freq, sr, n).wf(),
    decreases n,
{
    let inc = freq / sr;
    vstd::arithmetic::div_mod::lemma_div_pos_is_pos(freq, sr);
    if n == 0 {
        assert(0 * inc == 0) by (nonlinear_arith);
        vstd::arithmetic::div_mod::lemma_small_mod(o.phase as nat, UNIT as nat);
    } else {
        let o1 = spec_osc_advance(o, freq, sr);
        vstd::arithmetic::div_mod::lemma_mod_division_less_than_divisor(
            o.phase + inc,
            UNIT as int,
        );
        assert(o1.wf());
        lemma_phase_evolution(o1, freq, sr, (n - 1) as nat);
        assert(spec_osc_run(o, freq, sr, n) == spec_osc_run(o1, freq, sr, (n - 1) as nat));
        vstd::arithmetic::div_mod::lemma_add_mod_noop_right(
            (n - 1) * inc,
            o.phase + inc,
            UNIT as int,
        );
        assert(inc + (n - 1) * inc == n * inc) by (nonlinear_arith);
    }
}

/// Law: the phase sequence is periodic.  Whenever `n` increments of
/// `freq / sample_rate` add up to a whole number of cycles — `n` about
/// `sample_rate / frequency`, the waveform period in samples — the
/// oscillator returns exactly to its starting state.
pub proof fn lemma_phase_periodic(o: Oscillator, freq: int, sr: int, n: nat)
    requires
        o.wf(),
        sr >= 1,
        0 <= freq,
        (n * (freq / sr)) % (UNIT as int) == 0,
    ensures
        spec_osc_run(o, freq, sr, n) == o,
{
    lemma_phase_evolution(o, freq, sr, n);
    vstd::arithmetic::div_mod::lemma_add_mod_noop_right(o.phase as int, n * (freq / sr), UNIT as int);
    vstd::arithmetic::div_mod::lemma_small_mod(o.phase as nat, UNIT as nat);
}

} // verus!
