use synth_voice::envelope::{EnvStage, Envelope};
use synth_voice::lfo::Lfo;
use synth_voice::osc::{Oscillator, WaveForm};
use synth_voice::param::Param;

const UNIT: i64 = 1_000_000;

#[test]
fn oscillator_waveform_values() {
    // Sine: exact at the quarter-phase points.
    let o = Oscillator { phase: 0, waveform: WaveForm::Sine };
    assert_eq!(o.sample(), 0);
    let o = Oscillator { phase: 250_000, waveform: WaveForm::Sine };
    assert_eq!(o.sample(), 1_000_000);
    let o = Oscillator { phase: 750_000, waveform: WaveForm::Sine };
    assert_eq!(o.sample(), -1_000_000);

    // Square: asymmetric duty, high arm 0.7071, low arm -0.07071.
    let o = Oscillator { phase: 0, waveform: WaveForm::Square };
    assert_eq!(o.sample(), 707_100);
    let o = Oscillator { phase: 499_999, waveform: WaveForm::Square };
    assert_eq!(o.sample(), 707_100);
    let o = Oscillator { phase: 500_000, waveform: WaveForm::Square };
    assert_eq!(o.sample(), -70_710);

    // Triangle: -1.2247 at phase 0, +1.2247 at phase 1/2.
    let o = Oscillator { phase: 0, waveform: WaveForm::Triangle };
    assert_eq!(o.sample(), -1_224_700);
    let o = Oscillator { phase: 500_000, waveform: WaveForm::Triangle };
    assert_eq!(o.sample(), 1_224_700);

    // Saw: -1.2247 at phase 0, 0 at phase 1/2.
    let o = Oscillator { phase: 0, waveform: WaveForm::Saw };
    assert_eq!(o.sample(), -1_224_700);
    let o = Oscillator { phase: 500_000, waveform: WaveForm::Saw };
    assert_eq!(o.sample(), 0);
}

#[test]
fn oscillator_sample_then_advance() {
    // The value returned reflects the phase before the increment.
    let mut o = Oscillator::new();
    let first = o.next(480_000_000, 48_000);
    assert_eq!(first, 0);
    assert_eq!(o.phase, 10_000);
    let second = o.next(480_000_000, 48_000);
    assert_eq!(second, 16 * 10_000 * (500_000 - 10_000) / UNIT);
}

#[test]
fn oscillator_phase_periodic() {
    // 480 Hz at 48 kHz: the phase repeats every 100 samples and stays
    // wrapped inside [0, UNIT).
    let mut o = Oscillator::new();
    for _ in 0..100 {
        o.next(480_000_000, 48_000);
        assert!(0 <= o.phase && o.phase < UNIT);
    }
    assert_eq!(o.phase, 0);
}

#[test]
fn envelope_full_cycle() {
    // At 1 kHz with the default shape the stage boundaries land exactly.
    let sr: u32 = 1_000;
    let mut e = Envelope::new();
    assert_eq!(e.stage, EnvStage::Idle);
    assert_eq!(e.next(sr), 0);

    e.note_on();
    assert_eq!(e.stage, EnvStage::Attack);
    // Attack 0.01 s: 100_000 per sample, full scale after 10 samples.
    let mut prev = 0i64;
    for k in 1..=10 {
        let v = e.next(sr);
        assert!(v > prev, "attack must rise strictly");
        assert_eq!(v, 100_000 * k);
        prev = v;
    }
    assert_eq!(e.value, UNIT);
    assert_eq!(e.stage, EnvStage::Decay);

    // Decay 0.2 s down to sustain 0.7: 1_500 per sample, 200 samples.
    for _ in 0..200 {
        let v = e.next(sr);
        assert!(v < prev, "decay must fall strictly");
        prev = v;
    }
    assert_eq!(e.value, 700_000);
    assert_eq!(e.stage, EnvStage::Sustain);
    assert_eq!(e.next(sr), 700_000);
    assert_eq!(e.stage, EnvStage::Sustain);

    // Release 0.3 s from sustain 0.7: 2_333 per sample, zero after 301.
    e.note_off();
    assert_eq!(e.stage, EnvStage::Release);
    let mut steps = 0;
    while e.stage == EnvStage::Release {
        e.next(sr);
        steps += 1;
        assert!(steps <= 302);
    }
    assert_eq!(e.stage, EnvStage::Idle);
    assert_eq!(e.value, 0);
    assert_eq!(steps, 301);
}

#[test]
fn envelope_retrigger_restarts_attack() {
    let sr: u32 = 1_000;
    let mut e = Envelope::new();
    e.note_on();
    for _ in 0..5 {
        e.next(sr);
    }
    let mid = e.value;
    e.note_on();
    assert_eq!(e.stage, EnvStage::Attack);
    assert_eq!(e.value, mid, "a re-trigger does not reset the value");
}

#[test]
fn envelope_adsr_clamping() {
    let mut e = Envelope::new();
    e.set_adsr(-5, 0, 2_000_000, i64::MAX);
    assert_eq!(e.attack, 1_000);
    assert_eq!(e.decay, 1_000);
    assert_eq!(e.sustain, 1_000_000);
    assert_eq!(e.release, 1_000_000_000);
}

#[test]
fn param_smoothing_converges_monotonically() {
    // |current - target| strictly decreases each call until it is within
    // the fixed-point tolerance (one part in a thousand of a unit).
    let mut p = Param::new(0);
    p.set_target(UNIT);
    let mut dist = (p.target - p.current).abs();
    let mut calls = 0;
    while (p.target - p.current).abs() >= 1_000 {
        p.smooth(1_000);
        let d = (p.target - p.current).abs();
        assert!(d < dist, "distance must strictly decrease");
        assert!(p.current <= p.target, "smoothing must not overshoot");
        dist = d;
        calls += 1;
        assert!(calls < 10_000);
    }
    // Once inside the tolerance the value no longer moves away.
    p.smooth(1_000);
    assert!((p.target - p.current).abs() <= dist);
}

#[test]
fn param_absolute_set_is_instant() {
    let mut p = Param::new(0);
    p.set_target(500_000);
    p.smooth(1_000);
    p.set_absolute(250_000);
    assert_eq!(p.current, 250_000);
    assert_eq!(p.target, 250_000);
    assert_eq!(p.modulation, 0);
}

#[test]
fn lfo_quarter_cycle_values() {
    // 250 units of phase per sample: the LFO hits the four exact points
    // of the sine cycle in turn.
    let mut l = Lfo::new();
    l.freq = 250_000_000;
    let sr: u32 = 1_000;
    assert_eq!(l.next(sr), 0);
    assert_eq!(l.next(sr), 1_000_000);
    assert_eq!(l.next(sr), 0);
    assert_eq!(l.next(sr), -1_000_000);
    assert_eq!(l.next(sr), 0);
    assert_eq!(l.phase, 250_000);
}
