use synth_voice::engine::{
    alloc_buffer, synth_free, synth_new, synth_note_off, synth_note_on, synth_render,
    synth_set_adsr, synth_set_frequency, synth_set_gain, synth_set_lfo_freq, synth_set_waveform,
};
use synth_voice::envelope::EnvStage;
use synth_voice::osc::WaveForm;

const UNIT: i64 = 1_000_000;

#[test]
fn alloc_buffer_is_zeroed() {
    let buf = alloc_buffer(257);
    assert_eq!(buf.len(), 257);
    assert!(buf.iter().all(|&s| s == 0));
    assert_eq!(alloc_buffer(0).len(), 0);
}

#[test]
fn default_engine_state() {
    let s = synth_new(48_000);
    assert_eq!(s.osc.waveform, WaveForm::Sine);
    assert_eq!(s.osc.phase, 0);
    assert_eq!(s.env.stage, EnvStage::Idle);
    assert_eq!(s.freq_param.current, 440_000_000);
    assert_eq!(s.gain_param.current, 0);
    assert_eq!(s.routes.len(), 2);
    assert_eq!(s.sample_rate, 48_000);
    synth_free(s);
}

#[test]
fn render_zero_gain_is_silent() {
    // Gain 0 with both current and target converged: all zeros, whatever
    // the waveform, the frequency or the note state.
    for id in 0..4 {
        let mut s = synth_new(48_000);
        synth_set_gain(&mut s, 0);
        synth_set_frequency(&mut s, 880_000_000);
        synth_set_waveform(&mut s, id);
        synth_note_on(&mut s);
        let mut buf = alloc_buffer(512);
        synth_render(&mut s, &mut buf, 512);
        assert!(buf.iter().all(|&x| x == 0), "waveform {} must be silent", id);
        synth_free(s);
    }
}

#[test]
fn render_amplitude_never_exceeds_waveform_gain() {
    // Per-waveform normalization constant times the clamped gain (at most
    // one) bounds every output sample.
    let gains = [1_000_000i64, 707_100, 1_224_700, 1_224_700];
    for id in 0..4 {
        let mut s = synth_new(48_000);
        synth_set_gain(&mut s, UNIT);
        synth_set_frequency(&mut s, 440_000_000);
        synth_set_waveform(&mut s, id);
        synth_note_on(&mut s);
        let mut buf = alloc_buffer(4_800);
        synth_render(&mut s, &mut buf, 4_800);
        let bound = gains[id as usize];
        assert!(
            buf.iter().all(|&x| x.abs() <= bound),
            "waveform {} exceeded its gain bound",
            id
        );
        synth_free(s);
    }
}

#[test]
fn render_one_second_scenario() {
    // create(48000), gain 1, 440 Hz, note on, render one second: the
    // output is non-silent and bounded by the sine gain, and the envelope
    // rises strictly through the attack and never rises afterwards.
    let mut s = synth_new(48_000);
    synth_set_gain(&mut s, UNIT);
    synth_set_frequency(&mut s, 440_000_000);
    synth_note_on(&mut s);

    let mut peak = 0i64;
    let mut prev_env = 0i64;
    let mut frame = 0usize;
    let mut buf = alloc_buffer(1);
    while frame < 48_000 {
        synth_render(&mut s, &mut buf, 1);
        let out = buf[0];
        assert!(out.abs() <= UNIT, "sine output must stay within one unit");
        if out.abs() > peak {
            peak = out.abs();
        }
        // The attack lasts 0.01 s: 480 samples, plus one more in which the
        // truncated per-sample increment reaches the full-scale clamp.
        let env = s.env.value;
        if frame <= 480 {
            assert!(env > prev_env, "envelope must rise strictly during the attack");
        } else {
            assert!(env <= prev_env, "envelope must not rise after the attack");
        }
        prev_env = env;
        frame += 1;
    }
    assert!(peak > 500_000, "one second of a struck voice must be audible");
    synth_free(s);
}

#[test]
fn render_without_note_is_silent() {
    // Gain composes multiplicatively with the envelope's contribution, so
    // an idle envelope silences the voice even at full gain.
    let mut s = synth_new(48_000);
    synth_set_gain(&mut s, UNIT);
    synth_set_frequency(&mut s, 440_000_000);
    let mut buf = alloc_buffer(1_024);
    synth_render(&mut s, &mut buf, 1_024);
    assert!(buf.iter().all(|&x| x == 0));
    synth_free(s);
}

#[test]
fn set_waveform_is_idempotent() {
    // Selecting the same waveform twice gives renders identical to
    // selecting it once.
    let mut once = synth_new(44_100);
    let mut twice = synth_new(44_100);
    for s in [&mut once, &mut twice] {
        synth_set_gain(s, UNIT);
        synth_set_frequency(s, 330_000_000);
        synth_note_on(s);
    }
    synth_set_waveform(&mut once, 2);
    synth_set_waveform(&mut twice, 2);
    synth_set_waveform(&mut twice, 2);
    let mut buf_once = alloc_buffer(1_024);
    let mut buf_twice = alloc_buffer(1_024);
    synth_render(&mut once, &mut buf_once, 1_024);
    synth_render(&mut twice, &mut buf_twice, 1_024);
    assert_eq!(buf_once, buf_twice);
    synth_free(once);
    synth_free(twice);
}

#[test]
fn unrecognized_waveform_id_falls_back_to_sine() {
    let mut s = synth_new(48_000);
    synth_set_waveform(&mut s, 3);
    assert_eq!(s.osc.waveform, WaveForm::Saw);
    synth_set_waveform(&mut s, 99);
    assert_eq!(s.osc.waveform, WaveForm::Sine);
    synth_set_waveform(&mut s, -1);
    assert_eq!(s.osc.waveform, WaveForm::Sine);
    synth_free(s);
}

#[test]
fn render_touches_only_requested_frames() {
    let mut s = synth_new(48_000);
    synth_set_gain(&mut s, 0);
    let mut buf = vec![7i64; 8];
    synth_render(&mut s, &mut buf, 3);
    assert_eq!(&buf[..3], &[0, 0, 0]);
    assert_eq!(&buf[3..], &[7, 7, 7, 7, 7]);
    synth_free(s);
}

#[test]
fn control_setters_saturate() {
    let mut s = synth_new(48_000);
    synth_set_gain(&mut s, i64::MAX);
    assert_eq!(s.gain_param.current, 1_000_000_000_000);
    assert_eq!(s.gain_param.target, 1_000_000_000_000);
    synth_set_frequency(&mut s, i64::MIN);
    assert_eq!(s.freq_param.current, -1_000_000_000_000);
    synth_set_lfo_freq(&mut s, -3);
    assert_eq!(s.lfo.freq, 0);
    synth_set_lfo_freq(&mut s, 5_000_000);
    assert_eq!(s.lfo.freq, 5_000_000);
    synth_set_adsr(&mut s, 20_000, -1, 300_000, 0);
    assert_eq!(s.env.attack, 20_000);
    assert_eq!(s.env.decay, 1_000);
    assert_eq!(s.env.sustain, 300_000);
    assert_eq!(s.env.release, 1_000);
    synth_free(s);
}

#[test]
fn note_events_move_the_envelope_stage() {
    let mut s = synth_new(48_000);
    assert_eq!(s.env.stage, EnvStage::Idle);
    synth_note_on(&mut s);
    assert_eq!(s.env.stage, EnvStage::Attack);
    synth_note_off(&mut s);
    assert_eq!(s.env.stage, EnvStage::Release);
    synth_note_on(&mut s);
    assert_eq!(s.env.stage, EnvStage::Attack);
    synth_free(s);
}
