//! The synthesis engine: one oscillator, one envelope, one LFO, two
//! smoothed parameters, and the fixed modulation route table, composed by
//! the per-sample render loop.
//!
//! Every render step follows the same fixed order: smooth the parameters,
//! advance the LFO and the envelope, sum the modulation routes into the
//! parameters' accumulators, clamp the effective frequency and gain, then
//! advance the oscillator and scale its sample by the effective gain.

use vstd::prelude::*;
use crate::envelope::{Envelope, EnvStage, spec_env_next, spec_env_default, lemma_spec_env_next_wf};
use crate::fixed::{
    div_down, abs_val, spec_clamp, spec_sine, clamp64, lemma_div_down_abs_bound,
    lemma_mul_range_bound, UNIT, PARAM_LIMIT,
};
use crate::lfo::{Lfo, spec_lfo_advance, lemma_spec_lfo_advance_wf};
use crate::osc::{
    Oscillator, WaveForm, spec_osc_sample, spec_osc_advance, spec_waveform_gain,
    lemma_sample_bounded, lemma_spec_osc_advance_wf, MAX_AMPLITUDE,
};
use crate::param::{Param, spec_smooth, spec_param_new, lemma_spec_smooth_wf, MOD_LIMIT};

verus! {

/// The smoothing coefficient applied to every parameter once per sample
/// (0.001 of the remaining distance to the target).
pub const SMOOTH_COEFF: i64 = 1_000;

/// Lower clamp of the effective oscillator frequency: 20 Hz.
pub const FREQ_MIN: i64 = 20_000_000;

/// Upper clamp of the effective oscillator frequency: 20 kHz.
pub const FREQ_MAX: i64 = 20_000_000_000;

/// The parameters a modulation route can write to.
#[derive(Clone, Copy, PartialEq, Eq, Structural, Debug)]
pub enum ParamId {
    Frequency,
    Gain,
}

/// The modulation sources a route can read from.
#[derive(Clone, Copy, PartialEq, Eq, Structural, Debug)]
pub enum ModSource {
    Lfo1,
    Env1,
}

/// One modulation route: a source scaled by a depth, summed into the
/// modulation accumulator of a destination parameter.
#[derive(Clone, Copy, PartialEq, Eq, Structural, Debug)]
pub struct ModRoute {
    pub source: ModSource,
    pub destination: ParamId,
    pub depth: i64,
}

/// The voice: every sub-component is exclusively owned by the engine, and
/// the route table and sample rate are fixed at construction.
pub struct Synth {
    pub osc: Oscillator,
    pub env: Envelope,
    pub lfo: Lfo,
    pub freq_param: Param,
    pub gain_param: Param,
    pub routes: Vec<ModRoute>,
    pub sample_rate: u32,
}

/// The mathematical value of a [`Synth`]: the same components with the
/// route table abstracted to a sequence.
#[verifier::ext_equal]
pub struct SynthModel {
    pub osc: Oscillator,
    pub env: Envelope,
    pub lfo: Lfo,
    pub freq_param: Param,
    pub gain_param: Param,
    pub routes: Seq<ModRoute>,
    pub sample_rate: u32,
}

impl View for Synth {
    type V = SynthModel;

    open spec fn view(&self) -> SynthModel {
        SynthModel {
            osc: self.osc,
            env: self.env,
            lfo: self.lfo,
            freq_param: self.freq_param,
            gain_param: self.gain_param,
            routes: self.routes@,
            sample_rate: self.sample_rate,
        }
    }
}

/// The route table every engine is constructed with: the LFO modulates
/// the frequency at full depth, the envelope modulates the gain at full
/// depth.
pub open spec fn spec_fixed_routes() -> Seq<ModRoute> {
    seq![
        ModRoute { source: ModSource::Lfo1, destination: ParamId::Frequency, depth: UNIT },
        ModRoute { source: ModSource::Env1, destination: ParamId::Gain, depth: UNIT },
    ]
}

/// The value a route reads from its source for the current sample.
pub open spec fn spec_route_source_value(s: ModSource, lfo_value: int, env_value: int) -> int {
    match s {
        ModSource::Lfo1 => lfo_value,
        ModSource::Env1 => env_value,
    }
}

/// Sum every route of the table into the modulation accumulator of its
/// destination parameter, in table order: routing is additive, never
/// overwriting.
pub open spec fn spec_apply_routes(
    fp: Param,
    gp: Param,
    routes: Seq<ModRoute>,
    lfo_value: int,
    env_value: int,
) -> (Param, Param)
    decreases routes.len(),
{
    if routes.len() == 0 {
        (fp, gp)
    } else {
        let r = routes[0];
        let v = div_down(
            spec_route_source_value(r.source, lfo_value, env_value) * r.depth,
            UNIT as int,
        );
        match r.destination {
            ParamId::Frequency => spec_apply_routes(
                Param { modulation: (fp.modulation + v) as i64, ..fp },
                gp,
                routes.drop_first(),
                lfo_value,
                env_value,
            ),
            ParamId::Gain => spec_apply_routes(
                fp,
                Param { modulation: (gp.modulation + v) as i64, ..gp },
                routes.drop_first(),
                lfo_value,
                env_value,
            ),
        }
    }
}

/// The frequency the oscillator actually runs at: base plus modulation,
/// clamped into the audible range.
pub open spec fn spec_effective_freq(fp: Param) -> int {
    spec_clamp(fp.current + fp.modulation, FREQ_MIN as int, FREQ_MAX as int)
}

/// The gain the output sample is actually scaled by: base times
/// modulation (so a zero envelope silences the voice entirely), clamped
/// into `[0, UNIT]`.
pub open spec fn spec_effective_gain(gp: Param) -> int {
    spec_clamp(div_down(gp.current * gp.modulation, UNIT as int), 0, UNIT as int)
}

/// The two parameters after one sample's smoothing and routing.
pub open spec fn spec_step_params(m: SynthModel) -> (Param, Param) {
    spec_apply_routes(
        spec_smooth(m.freq_param, SMOOTH_COEFF as int),
        spec_smooth(m.gain_param, SMOOTH_COEFF as int),
        m.routes,
        spec_sine(m.lfo.phase as int),
        spec_env_next(m.env, m.sample_rate as int).value as int,
    )
}

/// The audio sample one render step produces: the oscillator's value at
/// its current phase, scaled by the effective gain.
pub open spec fn spec_step_out(m: SynthModel) -> int {
    let (fp, gp) = spec_step_params(m);
    div_down(spec_osc_sample(m.osc) * spec_effective_gain(gp), UNIT as int)
}

/// The whole engine one render step later.
pub open spec fn spec_step(m: SynthModel) -> SynthModel {
    let (fp, gp) = spec_step_params(m);
    SynthModel {
        osc: spec_osc_advance(m.osc, spec_effective_freq(fp), m.sample_rate as int),
        env: spec_env_next(m.env, m.sample_rate as int),
        lfo: spec_lfo_advance(m.lfo, m.sample_rate as int),
        freq_param: fp,
        gain_param: gp,
        routes: m.routes,
        sample_rate: m.sample_rate,
    }
}

/// The engine after `n` render steps.
pub open spec fn spec_run(m: SynthModel, n: nat) -> SynthModel
    decreases n,
{
    if n == 0 {
        m
    } else {
        spec_run(spec_step(m), (n - 1) as nat)
    }
}

/// The audio sample written to slot `i` of a render that starts from
/// engine state `m`.
pub open spec fn spec_output_at(m: SynthModel, i: nat) -> int {
    spec_step_out(spec_run(m, i))
}

/// A well-formed engine: every component well formed, the route table as
/// fixed at construction, and a positive sample rate.
pub open spec fn spec_wf_model(m: SynthModel) -> bool {
    &&& m.osc.wf()
    &&& m.env.wf()
    &&& m.lfo.wf()
    &&& m.freq_param.wf()
    &&& m.gain_param.wf()
    &&& m.routes == spec_fixed_routes()
    &&& m.sample_rate >= 1
}

impl Synth {
    /// A well-formed engine value.
    pub open spec fn wf(self) -> bool {
        spec_wf_model(self@)
    }
}

/// The engine state `synth_new` constructs for a given sample rate.
pub open spec fn spec_default_model(sample_rate: u32) -> SynthModel {
    SynthModel {
        osc: Oscillator { phase: 0, waveform: WaveForm::Sine },
        env: spec_env_default(),
        lfo: Lfo { phase: 0, freq: 440_000_000 },
        freq_param: spec_param_new(440_000_000),
        gain_param: spec_param_new(0),
        routes: spec_fixed_routes(),
        sample_rate,
    }
}

/// The waveform a host-facing selector id names; unrecognized ids fall
/// back to the sine.
pub open spec fn spec_waveform_of_id(id: int) -> WaveForm {
    if id == 1 {
        WaveForm::Square
    } else if id == 2 {
        WaveForm::Triangle
    } else if id == 3 {
        WaveForm::Saw
    } else {
        WaveForm::Sine
    }
}

/// The engine after a waveform change: only the oscillator's waveform
/// moves.
pub open spec fn spec_set_waveform(m: SynthModel, id: int) -> SynthModel {
    SynthModel {
        osc: Oscillator { phase: m.osc.phase, waveform: spec_waveform_of_id(id) },
        ..m
    }
}

/// Routing leaves `current` and `target` of both parameters untouched and
/// adds at most one unit of modulation per route.
pub proof fn lemma_apply_routes_props(
    fp: Param,
    gp: Param,
    routes: Seq<ModRoute>,
    lfo_value: int,
    env_value: int,
)
    requires
        -UNIT <= lfo_value <= UNIT,
        -UNIT <= env_value <= UNIT,
        forall|i: int|
            0 <= i < routes.len() ==> -UNIT <= (#[trigger] routes[i]).depth <= UNIT,
        abs_val(fp.modulation as int) + routes.len() * UNIT <= MOD_LIMIT,
        abs_val(gp.modulation as int) + routes.len() * UNIT <= MOD_LIMIT,
    ensures
        spec_apply_routes(fp, gp, routes, lfo_value, env_value).0.current == fp.current,
        spec_apply_routes(fp, gp, routes, lfo_value, env_value).0.target == fp.target,
        spec_apply_routes(fp, gp, routes, lfo_value, env_value).1.current == gp.current,
        spec_apply_routes(fp, gp, routes, lfo_value, env_value).1.target == gp.target,
        abs_val(spec_apply_routes(fp, gp, routes, lfo_value, env_value).0.modulation as int)
            <= abs_val(fp.modulation as int) + routes.len() * UNIT,
        abs_val(spec_apply_routes(fp, gp, routes, lfo_value, env_value).1.modulation as int)
            <= abs_val(gp.modulation as int) + routes.len() * UNIT,
    decreases routes.len(),
{
    if routes.len() > 0 {
        let r = routes[0];
        let sv = spec_route_source_value(r.source, lfo_value, env_value);
        let v = div_down(sv * r.depth, UNIT as int);
        lemma_mul_range_bound(sv, UNIT as int, r.depth as int, UNIT as int);
        lemma_div_down_abs_bound(sv * r.depth, UNIT as int, UNIT as int);
        assert forall|i: int| 0 <= i < routes.drop_first().len() implies -UNIT <= (
        #[trigger] routes.drop_first()[i]).depth <= UNIT by {
            assert(routes.drop_first()[i] == routes[i + 1]);
        }
        match r.destination {
            ParamId::Frequency => {
                let fp1 = Param { modulation: (fp.modulation + v) as i64, ..fp };
                lemma_apply_routes_props(fp1, gp, routes.drop_first(), lfo_value, env_value);
            },
            ParamId::Gain => {
                let gp1 = Param { modulation: (gp.modulation + v) as i64, ..gp };
                lemma_apply_routes_props(fp, gp1, routes.drop_first(), lfo_value, env_value);
            },
        }
    }
}

/// One render step keeps the engine well formed and never touches the
/// waveform, the route table, the sample rate, or the gain target.
pub proof fn lemma_step_wf(m: SynthModel)
    requires
        spec_wf_model(m),
    ensures
        spec_wf_model(spec_step(m)),
        spec_step(m).osc.waveform == m.osc.waveform,
        spec_step(m).routes == m.routes,
        spec_step(m).sample_rate == m.sample_rate,
        spec_step(m).gain_param.target == m.gain_param.target,
        spec_step(m).gain_param.current == spec_smooth(
            m.gain_param,
            SMOOTH_COEFF as int,
        ).current,
{
    let sr = m.sample_rate as int;
    let f1 = spec_smooth(m.freq_param, SMOOTH_COEFF as int);
    let g1 = spec_smooth(m.gain_param, SMOOTH_COEFF as int);
    lemma_spec_smooth_wf(m.freq_param, SMOOTH_COEFF as int);
    lemma_spec_smooth_wf(m.gain_param, SMOOTH_COEFF as int);
    let lv = spec_sine(m.lfo.phase as int);
    crate::fixed::lemma_sine_bounds(m.lfo.phase as int);
    lemma_spec_env_next_wf(m.env, sr);
    let ev = spec_env_next(m.env, sr).value as int;
    assert(m.routes == spec_fixed_routes());
    assert(m.routes.len() == 2);
    assert forall|i: int| 0 <= i < m.routes.len() implies -UNIT <= (
    #[trigger] m.routes[i]).depth <= UNIT by {
        if i == 0 {
            assert(m.routes[0] == spec_fixed_routes()[0]);
        } else {
            assert(m.routes[1] == spec_fixed_routes()[1]);
        }
    }
    lemma_apply_routes_props(f1, g1, m.routes, lv, ev);
    let fp = spec_step_params(m).0;
    let gp = spec_step_params(m).1;
    lemma_spec_osc_advance_wf(m.osc, spec_effective_freq(fp), sr);
    lemma_spec_lfo_advance_wf(m.lfo, sr);
}

/// No single render step produces a sample louder than the normalization
/// gain of the waveform it was produced with.
pub proof fn lemma_step_out_bounded(m: SynthModel)
    requires
        spec_wf_model(m),
    ensures
        abs_val(spec_step_out(m)) <= spec_waveform_gain(m.osc.waveform),
        abs_val(spec_step_out(m)) <= MAX_AMPLITUDE,
{
    let gp = spec_step_params(m).1;
    let eff_gain = spec_effective_gain(gp);
    let sample = spec_osc_sample(m.osc);
    let gain_w = spec_waveform_gain(m.osc.waveform);
    lemma_sample_bounded(m.osc);
    lemma_mul_range_bound(sample, gain_w, eff_gain, UNIT as int);
    lemma_div_down_abs_bound(sample * eff_gain, gain_w, UNIT as int);
}

/// Unfolding a run from the back: one more step after `n` steps is a step
/// applied to the state after `n` steps.
pub proof fn lemma_run_step(m: SynthModel, n: nat)
    ensures
        spec_run(m, (n + 1) as nat) == spec_step(spec_run(m, n)),
    decreases n,
{
    assert(spec_run(m, (n + 1) as nat) == spec_run(spec_step(m), n));
    if n == 0 {
        assert(spec_run(spec_step(m), 0) == spec_step(m));
        assert(spec_run(m, 0) == m);
    } else {
        lemma_run_step(spec_step(m), (n - 1) as nat);
        assert(spec_run(m, n) == spec_run(spec_step(m), (n - 1) as nat));
    }
}

/// A whole run keeps the engine well formed and never touches the
/// waveform, the route table or the sample rate.
pub proof fn lemma_run_props(m: SynthModel, n: nat)
    requires
        spec_wf_model(m),
    ensures
        spec_wf_model(spec_run(m, n)),
        spec_run(m, n).osc.waveform == m.osc.waveform,
        spec_run(m, n).routes == m.routes,
        spec_run(m, n).sample_rate == m.sample_rate,
    decreases n,
{
    if n > 0 {
        lemma_step_wf(m);
        lemma_run_props(spec_step(m), (n - 1) as nat);
    }
}

/// Law: no output sample of any render, from any well-formed engine
/// state, exceeds the normalization gain of the engine's waveform — the
/// effective gain is clamped to at most one, so the waveform gain times
/// the clamped gain bounds every sample.
pub proof fn lemma_output_bounded(m: SynthModel, i: nat)
    requires
        spec_wf_model(m),
    ensures
        abs_val(spec_output_at(m, i)) <= spec_waveform_gain(m.osc.waveform),
        abs_val(spec_output_at(m, i)) <= MAX_AMPLITUDE,
{
    lemma_run_props(m, i);
    lemma_step_out_bounded(spec_run(m, i));
}

/// One render step from a converged zero gain (both `current` and
/// `target` at zero) produces a zero sample and leaves the gain at zero.
pub proof fn lemma_step_silent(m: SynthModel)
    requires
        spec_wf_model(m),
        m.gain_param.current == 0,
        m.gain_param.target == 0,
    ensures
        spec_step_out(m) == 0,
        spec_step(m).gain_param.current == 0,
        spec_step(m).gain_param.target == 0,
{
    let sr = m.sample_rate as int;
    let g1 = spec_smooth(m.gain_param, SMOOTH_COEFF as int);
    assert((0int - 0int) * (SMOOTH_COEFF as int) == 0) by (nonlinear_arith);
    vstd::arithmetic::div_mod::lemma_div_of0(UNIT as int);
    assert(g1.current == 0);
    let f1 = spec_smooth(m.freq_param, SMOOTH_COEFF as int);
    lemma_spec_smooth_wf(m.freq_param, SMOOTH_COEFF as int);
    lemma_spec_smooth_wf(m.gain_param, SMOOTH_COEFF as int);
    let lv = spec_sine(m.lfo.phase as int);
    crate::fixed::lemma_sine_bounds(m.lfo.phase as int);
    lemma_spec_env_next_wf(m.env, sr);
    let ev = spec_env_next(m.env, sr).value as int;
    assert forall|i: int| 0 <= i < m.routes.len() implies -UNIT <= (
    #[trigger] m.routes[i]).depth <= UNIT by {
        if i == 0 {
            assert(m.routes[0] == spec_fixed_routes()[0]);
        } else {
            assert(m.routes[1] == spec_fixed_routes()[1]);
        }
    }
    lemma_apply_routes_props(f1, g1, m.routes, lv, ev);
    let gp = spec_step_params(m).1;
    assert(gp.current == 0 && gp.target == 0);
    assert(0int * gp.modulation == 0) by (nonlinear_arith);
    assert(spec_effective_gain(gp) == 0);
    assert(spec_osc_sample(m.osc) * 0int == 0) by (nonlinear_arith);
}

/// A whole run from a converged zero gain keeps the gain at zero.
pub proof fn lemma_silent_run(m: SynthModel, n: nat)
    requires
        spec_wf_model(m),
        m.gain_param.current == 0,
        m.gain_param.target == 0,
    ensures
        spec_wf_model(spec_run(m, n)),
        spec_run(m, n).gain_param.current == 0,
        spec_run(m, n).gain_param.target == 0,
    decreases n,
{
    if n > 0 {
        lemma_step_wf(m);
        lemma_step_silent(m);
        lemma_silent_run(spec_step(m), (n - 1) as nat);
    }
}

/// Law: a render from a converged zero gain is silence — every output
/// slot holds exactly zero, whatever the waveform, frequency, envelope or
/// LFO are doing.
pub proof fn lemma_silent_output(m: SynthModel, i: nat)
    requires
        spec_wf_model(m),
        m.gain_param.current == 0,
        m.gain_param.target == 0,
    ensures
        spec_output_at(m, i) == 0,
{
    lemma_silent_run(m, i);
    lemma_step_silent(spec_run(m, i));
}

/// Law: selecting the same waveform twice is the same as selecting it
/// once — the engine state is identical, so every later render output is
/// identical as well.
pub proof fn lemma_set_waveform_idempotent(m: SynthModel, id: int, i: nat)
    ensures
        spec_set_waveform(spec_set_waveform(m, id), id) == spec_set_waveform(m, id),
        spec_output_at(spec_set_waveform(spec_set_waveform(m, id), id), i) == spec_output_at(
            spec_set_waveform(m, id),
            i,
        ),
{
}

/// Build a voice for the given sample rate with the default patch: sine
/// waveform, idle envelope, zero gain, 440 units-per-second frequency,
/// and the fixed two-route modulation table.
pub fn synth_new(sample_rate: u32) -> (s: Synth)
    requires
        sample_rate >= 1,
    ensures
        s@ == spec_default_model(sample_rate),
        s.wf(),
{
    let mut routes: Vec<ModRoute> = Vec::new();
    routes.push(
        ModRoute { source: ModSource::Lfo1, destination: ParamId::Frequency, depth: UNIT },
    );
    routes.push(ModRoute { source: ModSource::Env1, destination: ParamId::Gain, depth: UNIT });
    proof {
        assert(routes@ =~= spec_fixed_routes());
    }
    let s = Synth {
        osc: Oscillator::new(),
        env: Envelope::new(),
        lfo: Lfo::new(),
        freq_param: Param::new(440_000_000),
        gain_param: Param::new(0),
        routes,
        sample_rate,
    };
    proof {
        assert(s@ =~= spec_default_model(sample_rate));
    }
    s
}

/// One sample of the render loop, in the fixed order: smooth, advance
/// LFO and envelope, route modulation, clamp the effective frequency and
/// gain, then sample-and-advance the oscillator.
fn render_one(synth: &mut Synth) -> (out: i64)
    requires
        old(synth).wf(),
    ensures
        final(synth)@ == spec_step(old(synth)@),
        final(synth).wf(),
        out == spec_step_out(old(synth)@),
{
    let ghost m0 = synth@;
    let sr = synth.sample_rate;
    synth.freq_param.smooth(SMOOTH_COEFF);
    synth.gain_param.smooth(SMOOTH_COEFF);
    let lfo_value = synth.lfo.next(sr);
    let env_value = synth.env.next(sr);
    let ghost f1 = synth.freq_param;
    let ghost g1 = synth.gain_param;
    proof {
        assert(synth.routes@.skip(0) =~= synth.routes@);
    }
    let mut idx: usize = 0;
    while idx < synth.routes.len()
        invariant
            spec_wf_model(m0),
            idx <= synth.routes@.len(),
            synth.routes@ == m0.routes,
            synth.osc == m0.osc,
            synth.env == spec_env_next(m0.env, m0.sample_rate as int),
            synth.lfo == spec_lfo_advance(m0.lfo, m0.sample_rate as int),
            synth.sample_rate == m0.sample_rate,
            sr == m0.sample_rate,
            -UNIT <= lfo_value <= UNIT,
            0 <= env_value <= UNIT,
            lfo_value == spec_sine(m0.lfo.phase as int),
            env_value == spec_env_next(m0.env, m0.sample_rate as int).value,
            f1 == spec_smooth(m0.freq_param, SMOOTH_COEFF as int),
            g1 == spec_smooth(m0.gain_param, SMOOTH_COEFF as int),
            f1.wf(),
            g1.wf(),
            synth.freq_param.current == f1.current,
            synth.freq_param.target == f1.target,
            synth.gain_param.current == g1.current,
            synth.gain_param.target == g1.target,
            abs_val(synth.freq_param.modulation as int) <= idx * UNIT,
            abs_val(synth.gain_param.modulation as int) <= idx * UNIT,
            spec_apply_routes(
                synth.freq_param,
                synth.gain_param,
                synth.routes@.skip(idx as int),
                lfo_value as int,
                env_value as int,
            ) == spec_apply_routes(f1, g1, m0.routes, lfo_value as int, env_value as int),
        decreases synth.routes@.len() - idx,
    {
        let ghost pre_f = synth.freq_param;
        let ghost pre_g = synth.gain_param;
        let r = synth.routes[idx];
        proof {
            assert(r == spec_fixed_routes()[idx as int]);
            assert(r.depth == UNIT);
        }
        let source_value = match r.source {
            ModSource::Lfo1 => lfo_value,
            ModSource::Env1 => env_value,
        };
        proof {
            lemma_mul_range_bound(source_value as int, UNIT as int, r.depth as int, UNIT as int);
            lemma_div_down_abs_bound(
                (source_value as int) * (r.depth as int),
                UNIT as int,
                UNIT as int,
            );
        }
        let v = (source_value * r.depth) / UNIT;
        match r.destination {
            ParamId::Frequency => {
                synth.freq_param.modulation = synth.freq_param.modulation + v;
            },
            ParamId::Gain => {
                synth.gain_param.modulation = synth.gain_param.modulation + v;
            },
        }
        proof {
            let suffix = synth.routes@.skip(idx as int);
            assert(suffix[0] == synth.routes@[idx as int]);
            assert(suffix.drop_first() =~= synth.routes@.skip(idx as int + 1));
            assert(spec_apply_routes(
                pre_f,
                pre_g,
                suffix,
                lfo_value as int,
                env_value as int,
            ) == spec_apply_routes(
                synth.freq_param,
                synth.gain_param,
                suffix.drop_first(),
                lfo_value as int,
                env_value as int,
            ));
        }
        idx = idx + 1;
    }
    proof {
        assert(synth.routes@.skip(synth.routes@.len() as int)
            =~= Seq::<ModRoute>::empty());
        assert((synth.freq_param, synth.gain_param) == spec_step_params(m0));
    }
    let c = synth.freq_param.current + synth.freq_param.modulation;
    let eff_freq = clamp64(c, FREQ_MIN, FREQ_MAX);
    proof {
        lemma_mul_range_bound(
            synth.gain_param.current as int,
            PARAM_LIMIT as int,
            synth.gain_param.modulation as int,
            MOD_LIMIT as int,
        );
    }
    let prod = synth.gain_param.current * synth.gain_param.modulation;
    let eff_gain = clamp64(prod / UNIT, 0, UNIT);
    let osc_value = synth.osc.next(eff_freq, sr);
    proof {
        lemma_mul_range_bound(
            osc_value as int,
            MAX_AMPLITUDE as int,
            eff_gain as int,
            UNIT as int,
        );
    }
    let out = (osc_value * eff_gain) / UNIT;
    proof {
        assert(synth@ =~= spec_step(m0));
    }
    out
}

/// Write exactly `frames` samples into the front of `output`, advancing
/// the engine one step per sample; slots past `frames` are untouched.
pub fn synth_render(synth: &mut Synth, output: &mut Vec<i64>, frames: usize)
    requires
        old(synth).wf(),
        old(output).len() >= frames,
    ensures
        final(synth).wf(),
        final(synth)@ == spec_run(old(synth)@, frames as nat),
        final(output)@.len() == old(output)@.len(),
        forall|i: int|
            0 <= i < frames ==> #[trigger] final(output)@[i] == spec_output_at(
                old(synth)@,
                i as nat,
            ),
        forall|i: int|
            frames <= i < old(output)@.len() ==> #[trigger] final(output)@[i] == old(
                output,
            )@[i],
        forall|i: int|
            0 <= i < frames ==> abs_val(#[trigger] final(output)@[i] as int)
                <= spec_waveform_gain(old(synth)@.osc.waveform),
        (old(synth)@.gain_param.current == 0 && old(synth)@.gain_param.target == 0)
            ==> (forall|i: int| 0 <= i < frames ==> #[trigger] final(output)@[i] == 0),
{
    let ghost m0 = synth@;
    let ghost out0 = output@;
    let mut i: usize = 0;
    while i < frames
        invariant
            spec_wf_model(m0),
            i <= frames,
            frames <= output@.len(),
            output@.len() == out0.len(),
            synth.wf(),
            synth@ == spec_run(m0, i as nat),
            forall|j: int| 0 <= j < i ==> #[trigger] output@[j] == spec_output_at(m0, j as nat),
            forall|j: int| i <= j < out0.len() ==> #[trigger] output@[j] == out0[j],
        decreases frames - i,
    {
        let out = render_one(synth);
        proof {
            lemma_run_step(m0, i as nat);
        }
        output.set(i, out);
        i = i + 1;
    }
    proof {
        assert forall|j: int|
            0 <= j < frames implies abs_val(output@[j] as int) <= spec_waveform_gain(
            m0.osc.waveform,
        ) by {
            lemma_output_bounded(m0, j as nat);
        }
        if m0.gain_param.current == 0 && m0.gain_param.target == 0 {
            assert forall|j: int| 0 <= j < frames implies output@[j] == 0 by {
                lemma_silent_output(m0, j as nat);
            }
        }
    }
}

/// Set the gain absolutely: `current` and `target` both move at once, so
/// the change is instantaneous, not smoothed.  The raw value saturates at
/// the engine's parameter range.
pub fn synth_set_gain(synth: &mut Synth, value: i64)
    requires
        old(synth).wf(),
    ensures
        final(synth).wf(),
        final(synth).gain_param == spec_param_new(
            spec_clamp(value as int, -(PARAM_LIMIT as int), PARAM_LIMIT as int),
        ),
        final(synth).osc == old(synth).osc,
        final(synth).env == old(synth).env,
        final(synth).lfo == old(synth).lfo,
        final(synth).freq_param == old(synth).freq_param,
        final(synth).routes@ == old(synth).routes@,
        final(synth).sample_rate == old(synth).sample_rate,
{
    let v = clamp64(value, -PARAM_LIMIT, PARAM_LIMIT);
    synth.gain_param.set_absolute(v);
}

/// Set the base frequency absolutely: `current` and `target` both move at
/// once, so the change is instantaneous, not smoothed.  The raw value
/// saturates at the engine's parameter range.
pub fn synth_set_frequency(synth: &mut Synth, value: i64)
    requires
        old(synth).wf(),
    ensures
        final(synth).wf(),
        final(synth).freq_param == spec_param_new(
            spec_clamp(value as int, -(PARAM_LIMIT as int), PARAM_LIMIT as int),
        ),
        final(synth).osc == old(synth).osc,
        final(synth).env == old(synth).env,
        final(synth).lfo == old(synth).lfo,
        final(synth).gain_param == old(synth).gain_param,
        final(synth).routes@ == old(synth).routes@,
        final(synth).sample_rate == old(synth).sample_rate,
{
    let v = clamp64(value, -PARAM_LIMIT, PARAM_LIMIT);
    synth.freq_param.set_absolute(v);
}

/// Start a note: the envelope jumps to `Attack`, whatever stage it was
/// in.
pub fn synth_note_on(synth: &mut Synth)
    requires
        old(synth).wf(),
    ensures
        final(synth).wf(),
        final(synth).env == (Envelope { stage: EnvStage::Attack, ..old(synth).env }),
        final(synth).osc == old(synth).osc,
        final(synth).lfo == old(synth).lfo,
        final(synth).freq_param == old(synth).freq_param,
        final(synth).gain_param == old(synth).gain_param,
        final(synth).routes@ == old(synth).routes@,
        final(synth).sample_rate == old(synth).sample_rate,
{
    synth.env.note_on();
}

/// End a note: the envelope jumps to `Release`, whatever stage it was
/// in.
pub fn synth_note_off(synth: &mut Synth)
    requires
        old(synth).wf(),
    ensures
        final(synth).wf(),
        final(synth).env == (Envelope { stage: EnvStage::Release, ..old(synth).env }),
        final(synth).osc == old(synth).osc,
        final(synth).lfo == old(synth).lfo,
        final(synth).freq_param == old(synth).freq_param,
        final(synth).gain_param == old(synth).gain_param,
        final(synth).routes@ == old(synth).routes@,
        final(synth).sample_rate == old(synth).sample_rate,
{
    synth.env.note_off();
}

/// Store a new ADSR shape, floored and clamped into the envelope's
/// admissible ranges before storage.
pub fn synth_set_adsr(synth: &mut Synth, attack: i64, decay: i64, sustain: i64, release: i64)
    requires
        old(synth).wf(),
    ensures
        final(synth).wf(),
        final(synth).env.attack == spec_clamp(
            attack as int,
            crate::envelope::MIN_ADSR_TIME as int,
            crate::envelope::MAX_ADSR_TIME as int,
        ),
        final(synth).env.decay == spec_clamp(
            decay as int,
            crate::envelope::MIN_ADSR_TIME as int,
            crate::envelope::MAX_ADSR_TIME as int,
        ),
        final(synth).env.sustain == spec_clamp(sustain as int, 0, UNIT as int),
        final(synth).env.release == spec_clamp(
            release as int,
            crate::envelope::MIN_ADSR_TIME as int,
            crate::envelope::MAX_ADSR_TIME as int,
        ),
        final(synth).env.stage == old(synth).env.stage,
        final(synth).env.value == old(synth).env.value,
        final(synth).osc == old(synth).osc,
        final(synth).lfo == old(synth).lfo,
        final(synth).freq_param == old(synth).freq_param,
        final(synth).gain_param == old(synth).gain_param,
        final(synth).routes@ == old(synth).routes@,
        final(synth).sample_rate == old(synth).sample_rate,
{
    synth.env.set_adsr(attack, decay, sustain, release);
}

/// Select a waveform by its host-facing id; unrecognized ids fall back to
/// the sine.  Only the oscillator's waveform moves: the phase and every
/// other component stay put.
pub fn synth_set_waveform(synth: &mut Synth, waveform: i32)
    requires
        old(synth).wf(),
    ensures
        final(synth).wf(),
        final(synth)@ == spec_set_waveform(old(synth)@, waveform as int),
{
    synth.osc.waveform = match waveform {
        1 => WaveForm::Square,
        2 => WaveForm::Triangle,
        3 => WaveForm::Saw,
        _ => WaveForm::Sine,
    };
    proof {
        assert(synth@ =~= spec_set_waveform(old(synth)@, waveform as int));
    }
}

/// Set the LFO rate, saturated into the engine's non-negative rate range.
pub fn synth_set_lfo_freq(synth: &mut Synth, freq: i64)
    requires
        old(synth).wf(),
    ensures
        final(synth).wf(),
        final(synth).lfo.freq == spec_clamp(freq as int, 0, PARAM_LIMIT as int),
        final(synth).lfo.phase == old(synth).lfo.phase,
        final(synth).osc == old(synth).osc,
        final(synth).env == old(synth).env,
        final(synth).freq_param == old(synth).freq_param,
        final(synth).gain_param == old(synth).gain_param,
        final(synth).routes@ == old(synth).routes@,
        final(synth).sample_rate == old(synth).sample_rate,
{
    synth.lfo.freq = clamp64(freq, 0, PARAM_LIMIT);
}

/// Release a voice: ownership moves in and the engine is dropped, so the
/// caller cannot use it afterwards.
pub fn synth_free(synth: Synth) {
    let _ = synth;
}

/// A zero-initialized output buffer with one slot per frame.
pub fn alloc_buffer(frames: usize) -> (buf: Vec<i64>)
    ensures
        buf@.len() == frames,
        forall|i: int| 0 <= i < frames ==> #[trigger] buf@[i] == 0,
{
    let mut buf: Vec<i64> = Vec::new();
    let mut i: usize = 0;
    while i < frames
        invariant
            i <= frames,
            buf@.len() == i,
            forall|j: int| 0 <= j < i ==> #[trigger] buf@[j] == 0,
        decreases frames - i,
    {
        buf.push(0);
        i = i + 1;
    }
    buf
}

} // verus!
