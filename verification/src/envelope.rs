//! The ADSR envelope generator.
//!
//! A five-stage state machine advanced once per sample.  Its output value
//! always stays in `[0, UNIT]`; attack, decay and release rates are
//! expressed relative to full scale and to the sustain level, so a
//! re-trigger mid-stage restarts the stage at the rate of the new stage.

use vstd::prelude::*;
use crate::fixed::{spec_clamp, clamp64, UNIT};

verus! {

/// Shortest admissible attack, decay or release time (one millisecond):
/// the floor that keeps the per-sample increments well defined.
pub const MIN_ADSR_TIME: i64 = 1_000;

/// Longest admissible attack, decay or release time (one thousand
/// seconds): the cap that keeps `time * sample_rate` inside `i64`.
pub const MAX_ADSR_TIME: i64 = 1_000_000_000;

/// The five stages of the envelope.
#[derive(Clone, Copy, PartialEq, Eq, Structural, Debug)]
pub enum EnvStage {
    Idle,
    Attack,
    Decay,
    Sustain,
    Release,
}

/// The envelope generator: current stage and value, and the four ADSR
/// shape settings (times in fixed-point seconds, sustain as a fixed-point
/// level in `[0, UNIT]`).
#[derive(Clone, Copy, PartialEq, Eq, Structural, Debug)]
pub struct Envelope {
    pub stage: EnvStage,
    pub value: i64,
    pub attack: i64,
    pub decay: i64,
    pub sustain: i64,
    pub release: i64,
}

/// Per-sample step: the quotient `num / denom`, floored at one micro-unit
/// so every active stage makes progress.
pub open spec fn spec_env_step_size(num: int, denom: int) -> int {
    let q = num / denom;
    if q < 1 {
        1
    } else {
        q
    }
}

/// Per-sample value increase while in `Attack`: full scale divided by the
/// number of samples in the attack time.
pub open spec fn spec_attack_step(e: Envelope, sr: int) -> int {
    spec_env_step_size(UNIT * UNIT, e.attack * sr)
}

/// Per-sample value decrease while in `Decay`: the distance from full
/// scale down to the sustain level divided over the decay time.
pub open spec fn spec_decay_step(e: Envelope, sr: int) -> int {
    spec_env_step_size((UNIT - e.sustain) * UNIT, e.decay * sr)
}

/// Per-sample value decrease while in `Release`: the sustain level divided
/// over the release time.
pub open spec fn spec_release_step(e: Envelope, sr: int) -> int {
    spec_env_step_size(e.sustain * UNIT, e.release * sr)
}

/// One sample of the envelope state machine.
pub open spec fn spec_env_next(e: Envelope, sr: int) -> Envelope {
    match e.stage {
        EnvStage::Idle => Envelope { value: 0, ..e },
        EnvStage::Attack => {
            let v = e.value + spec_attack_step(e, sr);
            if v >= UNIT {
                Envelope { stage: EnvStage::Decay, value: UNIT, ..e }
            } else {
                Envelope { value: v as i64, ..e }
            }
        },
        EnvStage::Decay => {
            let v = e.value - spec_decay_step(e, sr);
            if v <= e.sustain {
                Envelope { stage: EnvStage::Sustain, value: e.sustain, ..e }
            } else {
                Envelope { value: v as i64, ..e }
            }
        },
        EnvStage::Sustain => e,
        EnvStage::Release => {
            let v = e.value - spec_release_step(e, sr);
            if v <= 0 {
                Envelope { stage: EnvStage::Idle, value: 0, ..e }
            } else {
                Envelope { value: v as i64, ..e }
            }
        },
    }
}

/// The envelope after `n` samples.
pub open spec fn spec_env_run(e: Envelope, sr: int, n: nat) -> Envelope
    decreases n,
{
    if n == 0 {
        e
    } else {
        spec_env_run(spec_env_next(e, sr), sr, (n - 1) as nat)
    }
}

/// The defaults of a fresh envelope: idle at zero, a 10 ms attack, 200 ms
/// decay, 0.7 sustain and 300 ms release.
pub open spec fn spec_env_default() -> Envelope {
    Envelope {
        stage: EnvStage::Idle,
        value: 0,
        attack: 10_000,
        decay: 200_000,
        sustain: 700_000,
        release: 300_000,
    }
}

impl Envelope {
    /// The value and sustain level stay inside `[0, UNIT]` and the three
    /// times inside their admissible range.
    pub open spec fn wf(self) -> bool {
        &&& 0 <= self.value <= UNIT
        &&& 0 <= self.sustain <= UNIT
        &&& MIN_ADSR_TIME <= self.attack <= MAX_ADSR_TIME
        &&& MIN_ADSR_TIME <= self.decay <= MAX_ADSR_TIME
        &&& MIN_ADSR_TIME <= self.release <= MAX_ADSR_TIME
    }

    /// A fresh, idle envelope with the default ADSR shape.
    pub fn new() -> (e: Envelope)
        ensures
            e == spec_env_default(),
            e.wf(),
    {
        Envelope {
            stage: EnvStage::Idle,
            value: 0,
            attack: 10_000,
            decay: 200_000,
            sustain: 700_000,
            release: 300_000,
        }
    }

    /// Advance the envelope by one sample and return its new value.
    pub fn next(&mut self, sample_rate: u32) -> (out: i64)
        requires
            old(self).wf(),
            sample_rate >= 1,
        ensures
            *final(self) == spec_env_next(*old(self), sample_rate as int),
            out == final(self).value,
            final(self).wf(),
            0 <= out <= UNIT,
    {
        match self.stage {
            EnvStage::Idle => {
                self.value = 0;
            },
            EnvStage::Attack => {
                let step = env_step_size(UNIT * UNIT, mul_time_rate(self.attack, sample_rate));
                let v = self.value + step;
                if v >= UNIT {
                    self.value = UNIT;
                    self.stage = EnvStage::Decay;
                } else {
                    self.value = v;
                }
            },
            EnvStage::Decay => {
                let step = env_step_size(
                    (UNIT - self.sustain) * UNIT,
                    mul_time_rate(self.decay, sample_rate),
                );
                let v = self.value - step;
                if v <= self.sustain {
                    self.value = self.sustain;
                    self.stage = EnvStage::Sustain;
                } else {
                    self.value = v;
                }
            },
            EnvStage::Sustain => {},
            EnvStage::Release => {
                let step = env_step_size(
                    self.sustain * UNIT,
                    mul_time_rate(self.release, sample_rate),
                );
                let v = self.value - step;
                if v <= 0 {
                    self.value = 0;
                    self.stage = EnvStage::Idle;
                } else {
                    self.value = v;
                }
            },
        }
        self.value
    }

    /// Force an immediate transition to `Attack`, whatever the current
    /// stage; the value is not reset, so a re-trigger restarts the rise
    /// from wherever the envelope stands.
    pub fn note_on(&mut self)
        requires
            old(self).wf(),
        ensures
            *final(self) == (Envelope { stage: EnvStage::Attack, ..*old(self) }),
            final(self).wf(),
    {
        self.stage = EnvStage::Attack;
    }

    /// Force an immediate transition to `Release`, whatever the current
    /// stage.
    pub fn note_off(&mut self)
        requires
            old(self).wf(),
        ensures
            *final(self) == (Envelope { stage: EnvStage::Release, ..*old(self) }),
            final(self).wf(),
    {
        self.stage = EnvStage::Release;
    }

    /// Store a new ADSR shape, flooring each time at `MIN_ADSR_TIME`,
    /// capping it at `MAX_ADSR_TIME`, and clamping sustain into
    /// `[0, UNIT]`.  Stage and value are untouched.
    pub fn set_adsr(&mut self, attack: i64, decay: i64, sustain: i64, release: i64)
        requires
            old(self).wf(),
        ensures
            final(self).attack == spec_clamp(attack as int, MIN_ADSR_TIME as int, MAX_ADSR_TIME as int),
            final(self).decay == spec_clamp(decay as int, MIN_ADSR_TIME as int, MAX_ADSR_TIME as int),
            final(self).sustain == spec_clamp(sustain as int, 0, UNIT as int),
            final(self).release == spec_clamp(release as int, MIN_ADSR_TIME as int, MAX_ADSR_TIME as int),
            final(self).stage == old(self).stage,
            final(self).value == old(self).value,
            final(self).wf(),
    {
        self.attack = clamp64(attack, MIN_ADSR_TIME, MAX_ADSR_TIME);
        self.decay = clamp64(decay, MIN_ADSR_TIME, MAX_ADSR_TIME);
        self.sustain = clamp64(sustain, 0, UNIT);
        self.release = clamp64(release, MIN_ADSR_TIME, MAX_ADSR_TIME);
    }
}

/// One envelope sample keeps the envelope well formed and never touches
/// the ADSR shape settings.
pub proof fn lemma_spec_env_next_wf(e: Envelope, sr: int)
    requires
        e.wf(),
        sr >= 1,
    ensures
        spec_env_next(e, sr).wf(),
        spec_env_next(e, sr).attack == e.attack,
        spec_env_next(e, sr).decay == e.decay,
        spec_env_next(e, sr).sustain == e.sustain,
        spec_env_next(e, sr).release == e.release,
{
    vstd::arithmetic::mul::lemma_mul_strictly_positive(e.attack as int, sr);
    vstd::arithmetic::mul::lemma_mul_strictly_positive(e.decay as int, sr);
    vstd::arithmetic::mul::lemma_mul_strictly_positive(e.release as int, sr);
}

/// Law: from `Attack`, the envelope value rises by exactly one attack step
/// per sample, strictly increasing, until the sample on which it would
/// meet or pass full scale; on that sample it clamps to `UNIT` and the
/// stage becomes `Decay`.  `n` is the number of samples needed, about
/// `attack * sample_rate` of them when the rise starts from zero.
pub proof fn lemma_attack_completes(e: Envelope, sr: int, n: nat)
    requires
        e.wf(),
        sr >= 1,
        e.stage == EnvStage::Attack,
        n >= 1,
        e.value + (n - 1) * spec_attack_step(e, sr) < UNIT,
        e.value + n * spec_attack_step(e, sr) >= UNIT,
    ensures
        forall|k: nat|
            k < n ==> (#[trigger] spec_env_run(e, sr, k)).stage == EnvStage::Attack
                && spec_env_run(e, sr, k).value == e.value + k * spec_attack_step(e, sr),
        spec_env_run(e, sr, n) == (Envelope { stage: EnvStage::Decay, value: UNIT, ..e }),
    decreases n,
{
    let s = spec_attack_step(e, sr);
    let done = (Envelope { stage: EnvStage::Decay, value: UNIT, ..e });
    if n == 1 {
        assert(1 * s == s) by (nonlinear_arith);
        assert(0 * s == 0) by (nonlinear_arith);
        assert(spec_env_run(e, sr, n) == done);
    } else {
        assert(s <= (n - 1) * s) by (nonlinear_arith)
            requires
                1 <= n - 1,
                1 <= s,
        ;
        assert(e.value + s < UNIT);
        let e1 = spec_env_next(e, sr);
        assert(e1 == (Envelope { value: (e.value + s) as i64, ..e }));
        assert(spec_attack_step(e1, sr) == s);
        assert(e1.value + (n - 2) * s == e.value + (n - 1) * s) by (nonlinear_arith)
            requires
                e1.value == e.value + s,
        ;
        assert(e1.value + (n - 1) * s == e.value + n * s) by (nonlinear_arith)
            requires
                e1.value == e.value + s,
        ;
        lemma_attack_completes(e1, sr, (n - 1) as nat);
        assert(spec_env_run(e, sr, n) == spec_env_run(e1, sr, (n - 1) as nat));
        assert(spec_env_run(e, sr, n) == done);
        assert forall|k: nat| k < n implies (#[trigger] spec_env_run(e, sr, k)).stage
            == EnvStage::Attack && spec_env_run(e, sr, k).value == e.value + k * s by {
            if k == 0 {
                assert(0 * s == 0) by (nonlinear_arith);
            } else {
                assert(spec_env_run(e, sr, k) == spec_env_run(e1, sr, (k - 1) as nat));
                assert(e1.value + (k - 1) * s == e.value + k * s) by (nonlinear_arith)
                    requires
                        e1.value == e.value + s,
                ;
            }
        }
    }
}

/// Law: from `Decay`, the envelope value falls by exactly one decay step
/// per sample, strictly decreasing, until the sample on which it would
/// meet or pass the sustain level; on that sample it clamps to the sustain
/// level and the stage becomes `Sustain`.
pub proof fn lemma_decay_completes(e: Envelope, sr: int, n: nat)
    requires
        e.wf(),
        sr >= 1,
        e.stage == EnvStage::Decay,
        n >= 1,
        e.value - (n - 1) * spec_decay_step(e, sr) > e.sustain,
        e.value - n * spec_decay_step(e, sr) <= e.sustain,
    ensures
        forall|k: nat|
            k < n ==> (#[trigger] spec_env_run(e, sr, k)).stage == EnvStage::Decay
                && spec_env_run(e, sr, k).value == e.value - k * spec_decay_step(e, sr),
        spec_env_run(e, sr, n) == (Envelope { stage: EnvStage::Sustain, value: e.sustain, ..e }),
    decreases n,
{
    let s = spec_decay_step(e, sr);
    let done = (Envelope { stage: EnvStage::Sustain, value: e.sustain, ..e });
    if n == 1 {
        assert(1 * s == s) by (nonlinear_arith);
        assert(0 * s == 0) by (nonlinear_arith);
        assert(spec_env_run(e, sr, n) == done);
    } else {
        assert(s <= (n - 1) * s) by (nonlinear_arith)
            requires
                1 <= n - 1,
                1 <= s,
        ;
        let e1 = spec_env_next(e, sr);
        assert(e1 == (Envelope { value: (e.value - s) as i64, ..e }));
        assert(spec_decay_step(e1, sr) == s);
        assert(e1.value - (n - 2) * s == e.value - (n - 1) * s) by (nonlinear_arith)
            requires
                e1.value == e.value - s,
        ;
        assert(e1.value - (n - 1) * s == e.value - n * s) by (nonlinear_arith)
            requires
                e1.value == e.value - s,
        ;
        lemma_decay_completes(e1, sr, (n - 1) as nat);
        assert(spec_env_run(e, sr, n) == spec_env_run(e1, sr, (n - 1) as nat));
        assert(spec_env_run(e, sr, n) == done);
        assert forall|k: nat| k < n implies (#[trigger] spec_env_run(e, sr, k)).stage
            == EnvStage::Decay && spec_env_run(e, sr, k).value == e.value - k * s by {
            if k == 0 {
                assert(0 * s == 0) by (nonlinear_arith);
            } else {
                assert(spec_env_run(e, sr, k) == spec_env_run(e1, sr, (k - 1) as nat));
                assert(e1.value - (k - 1) * s == e.value - k * s) by (nonlinear_arith)
                    requires
                        e1.value == e.value - s,
                ;
            }
        }
    }
}

/// Law: from `Release`, the envelope value falls by exactly one release
/// step per sample, strictly decreasing, until the sample on which it
/// would meet or pass zero; on that sample it clamps to zero and the
/// stage becomes `Idle`.
pub proof fn lemma_release_completes(e: Envelope, sr: int, n: nat)
    requires
        e.wf(),
        sr >= 1,
        e.stage == EnvStage::Release,
        n >= 1,
        e.value - (n - 1) * spec_release_step(e, sr) > 0,
        e.value - n * spec_release_step(e, sr) <= 0,
    ensures
        forall|k: nat|
            k < n ==> (#[trigger] spec_env_run(e, sr, k)).stage == EnvStage::Release
                && spec_env_run(e, sr, k).value == e.value - k * spec_release_step(e, sr),
        spec_env_run(e, sr, n) == (Envelope { stage: EnvStage::Idle, value: 0, ..e }),
    decreases n,
{
    let s = spec_release_step(e, sr);
    let done = (Envelope { stage: EnvStage::Idle, value: 0, ..e });
    if n == 1 {
        assert(1 * s == s) by (nonlinear_arith);
        assert(0 * s == 0) by (nonlinear_arith);
        assert(spec_env_run(e, sr, n) == done);
    } else {
        assert(s <= (n - 1) * s) by (nonlinear_arith)
            requires
                1 <= n - 1,
                1 <= s,
        ;
        let e1 = spec_env_next(e, sr);
        assert(e1 == (Envelope { value: (e.value - s) as i64, ..e }));
        assert(spec_release_step(e1, sr) == s);
        assert(e1.value - (n - 2) * s == e.value - (n - 1) * s) by (nonlinear_arith)
            requires
                e1.value == e.value - s,
        ;
        assert(e1.value - (n - 1) * s == e.value - n * s) by (nonlinear_arith)
            requires
                e1.value == e.value - s,
        ;
        lemma_release_completes(e1, sr, (n - 1) as nat);
        assert(spec_env_run(e, sr, n) == spec_env_run(e1, sr, (n - 1) as nat));
        assert(spec_env_run(e, sr, n) == done);
        assert forall|k: nat| k < n implies (#[trigger] spec_env_run(e, sr, k)).stage
            == EnvStage::Release && spec_env_run(e, sr, k).value == e.value - k * s by {
            if k == 0 {
                assert(0 * s == 0) by (nonlinear_arith);
            } else {
                assert(spec_env_run(e, sr, k) == spec_env_run(e1, sr, (k - 1) as nat));
                assert(e1.value - (k - 1) * s == e.value - k * s) by (nonlinear_arith)
                    requires
                        e1.value == e.value - s,
                ;
            }
        }
    }
}

/// The product of an admissible ADSR time and a sample rate, which always
/// fits in `i64`.
fn mul_time_rate(time: i64, sample_rate: u32) -> (r: i64)
    requires
        MIN_ADSR_TIME <= time <= MAX_ADSR_TIME,
        sample_rate >= 1,
    ensures
        r == time * sample_rate,
        r >= 1,
{
    proof {
        vstd::arithmetic::mul::lemma_mul_upper_bound(
            time as int,
            MAX_ADSR_TIME as int,
            sample_rate as int,
            u32::MAX as int,
        );
        vstd::arithmetic::mul::lemma_mul_strictly_positive(time as int, sample_rate as int);
    }
    time * (sample_rate as i64)
}

/// The per-sample step for one envelope stage, floored at one micro-unit.
fn env_step_size(num: i64, denom: i64) -> (r: i64)
    requires
        0 <= num,
        1 <= denom,
    ensures
        r == spec_env_step_size(num as int, denom as int),
        1 <= r,
        num >= 1 ==> r <= num,
{
    proof {
        vstd::arithmetic::div_mod::lemma_div_pos_is_pos(num as int, denom as int);
        vstd::arithmetic::div_mod::lemma_div_nonincreasing(num as int, denom as int);
    }
    let q = num / denom;
    if q < 1 {
        1
    } else {
        q
    }
}

} // verus!
