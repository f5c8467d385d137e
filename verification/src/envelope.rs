//! ADSR amplitude envelope.
//!
//! A five-state machine (idle, attack, decay, sustain, release) advanced once
//! per audio sample. All levels are fixed-point amplitudes in `[0, UNIT]` and
//! all durations are fixed-point sample counts, so each linear ramp is an
//! exact integer formula. Zero-length phases collapse into the next phase
//! within the same `process` call, so an instant phase never spends a sample
//! of real time.

use vstd::prelude::*;

use crate::util::{clamp, mul_div, lemma_scale_monotone, lemma_scale_within, DUR_MAX, UNIT};

verus! {

/// Envelope state machine.
#[derive(Clone, Copy, Debug, PartialEq, Eq, Structural)]
pub enum EnvelopeState {
    Idle,
    Attack,
    Decay,
    Sustain,
    Release,
}

/// Mathematical model of an envelope: the exact integer content of every
/// field, over which all contracts and laws are stated.
pub ghost struct EnvModel {
    /// Current state of the machine.
    pub state: EnvelopeState,
    /// Amplitude produced by the last step, in `[0, vel]`.
    pub value: int,
    /// Sample rate in hertz.
    pub rate: int,
    /// Attack duration in fixed-point samples.
    pub att: int,
    /// Decay duration in fixed-point samples.
    pub dec: int,
    /// Sustain level in `[0, UNIT]`.
    pub sus: int,
    /// Release duration in fixed-point samples.
    pub rel: int,
    /// Position inside the current phase, in fixed-point samples.
    pub pos: int,
    /// Velocity scaling in `[0, UNIT]`.
    pub vel: int,
    /// Amplitude captured when release began.
    pub rsv: int,
}

/// Well-formedness of an envelope model: every level within its band and
/// every duration within the clamped range.
pub open spec fn env_wf(m: EnvModel) -> bool {
    &&& 0 <= m.value <= m.vel
    &&& m.vel <= UNIT
    &&& 0 <= m.sus <= UNIT
    &&& 0 <= m.rsv <= UNIT
    &&& (m.state == EnvelopeState::Release ==> m.rsv <= m.vel)
    &&& 0 <= m.att <= DUR_MAX
    &&& 0 <= m.dec <= DUR_MAX
    &&& 0 <= m.rel <= DUR_MAX
    &&& 0 <= m.pos <= DUR_MAX
    &&& 0 <= m.rate
}

/// The level the decay phase ramps down to and the sustain phase holds:
/// the sustain fraction of the velocity.
pub open spec fn sus_target(m: EnvModel) -> int {
    m.sus * m.vel / (UNIT as int)
}

/// A duration in milliseconds converted to fixed-point samples: negative
/// times clamp to zero and the result is capped at [`DUR_MAX`].
pub open spec fn dur_from_ms(ms: int, rate: int) -> int {
    if ms <= 0 {
        0
    } else if ms * rate / 1000 > DUR_MAX {
        DUR_MAX as int
    } else {
        ms * rate / 1000
    }
}

/// One step of the decay phase: an instant decay (or one whose time is up
/// within this sample) lands on the sustain target and moves to sustain;
/// otherwise the value ramps linearly from the velocity down to the target.
pub open spec fn env_decay_step(m: EnvModel) -> EnvModel {
    if m.dec <= 0 || m.pos + UNIT >= m.dec {
        EnvModel { state: EnvelopeState::Sustain, pos: 0, value: sus_target(m), ..m }
    } else {
        EnvModel {
            value: m.vel - m.pos * (m.vel - sus_target(m)) / m.dec,
            pos: m.pos + UNIT,
            ..m
        }
    }
}

/// One `process` call of the envelope: the complete transition function of
/// the state machine, including the collapse of zero-length phases.
pub open spec fn env_step(m: EnvModel) -> EnvModel {
    match m.state {
        EnvelopeState::Idle => EnvModel { value: 0, ..m },
        EnvelopeState::Attack => {
            if m.att <= 0 {
                env_decay_step(
                    EnvModel { state: EnvelopeState::Decay, pos: 0, value: m.vel, ..m },
                )
            } else if m.pos + UNIT >= m.att {
                EnvModel { state: EnvelopeState::Decay, pos: 0, value: m.vel, ..m }
            } else {
                EnvModel { value: m.pos * m.vel / m.att, pos: m.pos + UNIT, ..m }
            }
        },
        EnvelopeState::Decay => env_decay_step(m),
        EnvelopeState::Sustain => EnvModel { value: sus_target(m), ..m },
        EnvelopeState::Release => {
            if m.rel <= 0 || m.pos + UNIT >= m.rel {
                EnvModel { state: EnvelopeState::Idle, pos: 0, value: 0, ..m }
            } else {
                EnvModel { value: m.rsv - m.pos * m.rsv / m.rel, pos: m.pos + UNIT, ..m }
            }
        },
    }
}

/// What `note_on` does to the model: clamp the velocity and restart the
/// attack from level zero, whatever the previous state was.
pub open spec fn env_note_on(m: EnvModel, velocity: int) -> EnvModel {
    EnvModel {
        state: EnvelopeState::Attack,
        vel: crate::util::spec_clamp(velocity, 0, UNIT as int),
        pos: 0,
        value: 0,
        ..m
    }
}

/// What `note_off` does to the model: enter release, capturing the current
/// level so the ramp starts from wherever the envelope actually was.
pub open spec fn env_note_off(m: EnvModel) -> EnvModel {
    EnvModel { state: EnvelopeState::Release, pos: 0, rsv: m.value, ..m }
}

/// The model of a freshly constructed envelope: idle at level zero, with
/// the default settings of 10 ms attack, 100 ms decay, 70% sustain and
/// 100 ms release, at full velocity.
pub open spec fn initial_env(rate: int) -> EnvModel {
    EnvModel {
        state: EnvelopeState::Idle,
        value: 0,
        rate,
        att: dur_from_ms(10 * UNIT as int, rate),
        dec: dur_from_ms(100 * UNIT as int, rate),
        sus: 700_000,
        rel: dur_from_ms(100 * UNIT as int, rate),
        pos: 0,
        vel: UNIT as int,
        rsv: 0,
    }
}

/// The envelope after `k` process calls.
pub open spec fn env_iter(m: EnvModel, k: int) -> EnvModel
    decreases k,
{
    if k <= 0 {
        m
    } else {
        env_step(env_iter(m, k - 1))
    }
}

/// The sustain target never exceeds the velocity.
proof fn lemma_sus_target_within(m: EnvModel)
    requires
        env_wf(m),
    ensures
        0 <= sus_target(m) <= m.vel,
{
    lemma_scale_within(m.sus, m.vel, UNIT as int);
}

/// One step from a well-formed envelope is well-formed again.
pub proof fn lemma_env_step_wf(m: EnvModel)
    requires
        env_wf(m),
    ensures
        env_wf(env_step(m)),
{
    lemma_sus_target_within(m);
    match m.state {
        EnvelopeState::Attack => {
            if m.att <= 0 {
                let d = EnvModel { state: EnvelopeState::Decay, pos: 0, value: m.vel, ..m };
                lemma_sus_target_within(d);
                if !(d.dec <= 0 || d.pos + UNIT >= d.dec) {
                    lemma_scale_within(d.pos, d.vel - sus_target(d), d.dec);
                }
            } else if m.pos + UNIT >= m.att {
            } else {
                lemma_scale_within(m.pos, m.vel, m.att);
            }
        },
        EnvelopeState::Decay => {
            if !(m.dec <= 0 || m.pos + UNIT >= m.dec) {
                lemma_scale_within(m.pos, m.vel - sus_target(m), m.dec);
            }
        },
        EnvelopeState::Release => {
            if !(m.rel <= 0 || m.pos + UNIT >= m.rel) {
                lemma_scale_within(m.pos, m.rsv, m.rel);
            }
        },
        _ => {},
    }
}

/// Stepping a model is the same as stepping its first step one call later:
/// iteration can be peeled from the front as well as from the back.
proof fn lemma_env_iter_shift(m: EnvModel, k: int)
    requires
        k >= 1,
    ensures
        env_iter(m, k) == env_iter(env_step(m), k - 1),
    decreases k,
{
    if k > 1 {
        lemma_env_iter_shift(m, k - 1);
    } else {
        assert(env_iter(m, 0) == m);
        assert(env_iter(env_step(m), 0) == env_step(m));
    }
}

/// An idle envelope stays idle and keeps producing zero.
proof fn lemma_idle_stays(m: EnvModel, k: int)
    requires
        m.state == EnvelopeState::Idle,
        k >= 1,
    ensures
        env_iter(m, k).state == EnvelopeState::Idle,
        env_iter(m, k).value == 0,
    decreases k,
{
    if k > 1 {
        lemma_idle_stays(m, k - 1);
    } else {
        assert(env_iter(m, 0) == m);
    }
}

/// Law: the attack ramp is monotone and lands exactly on the velocity.
/// While the envelope stays in attack, consecutive samples never decrease,
/// and the sample on which it leaves attack is exactly the velocity.
pub proof fn lemma_attack_monotone(m: EnvModel)
    requires
        env_wf(m),
        m.state == EnvelopeState::Attack,
        m.att > 0,
    ensures
        env_step(m).state == EnvelopeState::Attack ==> env_step(env_step(m)).value
            >= env_step(m).value,
        env_step(m).state == EnvelopeState::Decay ==> env_step(m).value == m.vel,
{
    if m.pos + UNIT < m.att {
        let m1 = env_step(m);
        if m1.pos + UNIT < m1.att {
            lemma_scale_monotone(m.pos, m1.pos, m.vel, m.att);
        } else {
            lemma_scale_within(m.pos, m.vel, m.att);
        }
    }
}

/// Law: a fresh attack starts from level zero. Directly after `note_on`,
/// the first sample of an attack longer than one sample is exactly zero.
pub proof fn lemma_attack_starts_at_zero(m: EnvModel, v: int)
    requires
        env_wf(m),
        m.att > UNIT,
    ensures
        env_step(env_note_on(m, v)).value == 0,
{
    let m0 = env_note_on(m, v);
    assert(m0.pos == 0 && m0.att == m.att);
    assert(env_step(m0).value == 0 * m0.vel / m0.att);
    assert(0 * m0.vel == 0);
    vstd::arithmetic::div_mod::lemma_div_of0(m0.att);
}

/// Law: the attack ramp is exactly linear. While the attack of a fresh
/// note still has time left, the `k`-th sample after `note_on` is exactly
/// the floor of `(k - 1) / attack_samples` of the clamped velocity: the
/// ramp starts at zero and climbs in proportion to the elapsed samples.
pub proof fn lemma_attack_ramp_value(m: EnvModel, v: int, k: int)
    requires
        env_wf(m),
        k >= 1,
        k * UNIT < m.att,
    ensures
        env_iter(env_note_on(m, v), k).state == EnvelopeState::Attack,
        env_iter(env_note_on(m, v), k).pos == k * UNIT,
        env_iter(env_note_on(m, v), k).att == m.att,
        env_iter(env_note_on(m, v), k).vel == crate::util::spec_clamp(v, 0, UNIT as int),
        env_iter(env_note_on(m, v), k).value == (k - 1) * UNIT * crate::util::spec_clamp(
            v,
            0,
            UNIT as int,
        ) / m.att,
    decreases k,
{
    let m0 = env_note_on(m, v);
    if k == 1 {
        assert(env_iter(m0, 0) == m0);
        assert(env_iter(m0, 1) == env_step(m0));
        vstd::arithmetic::div_mod::lemma_div_of0(m0.att);
        assert(0 * m0.vel == 0);
    } else {
        lemma_attack_ramp_value(m, v, k - 1);
        let e = env_iter(m0, k - 1);
        assert(env_iter(m0, k) == env_step(e));
    }
}

/// Law: a zero-length attack collapses, so the first sample after `note_on`
/// is already the full (clamped) velocity, provided the decay does not also
/// collapse past it within the same call (a decay longer than one sample, or
/// a full sustain level, guarantees that).
pub proof fn lemma_instant_attack(m: EnvModel, v: int)
    requires
        env_wf(m),
        m.att <= 0,
        m.dec > UNIT || m.sus == UNIT,
    ensures
        env_step(env_note_on(m, v)).value == crate::util::spec_clamp(v, 0, UNIT as int),
{
    let m0 = env_note_on(m, v);
    let d = EnvModel { state: EnvelopeState::Decay, pos: 0, value: m0.vel, ..m0 };
    if m.dec > UNIT {
        vstd::arithmetic::div_mod::lemma_div_of0(d.dec);
    } else {
        vstd::arithmetic::mul::lemma_mul_is_commutative(d.sus, d.vel);
        vstd::arithmetic::div_mod::lemma_div_multiples_vanish(d.vel, UNIT as int);
    }
}

/// Law: a zero-length release collapses, so the first sample after
/// `note_off` is exactly zero and the envelope is already idle. This holds
/// for any release no longer than one sample.
pub proof fn lemma_instant_release(m: EnvModel)
    requires
        env_wf(m),
        m.rel <= UNIT,
    ensures
        env_step(env_note_off(m)).value == 0,
        env_step(env_note_off(m)).state == EnvelopeState::Idle,
{
}

/// Law: the release ramp is monotone non-increasing. From the release state
/// a step either stays in release, with the following sample no larger, or
/// lands in idle at exactly zero.
pub proof fn lemma_release_monotone(m: EnvModel)
    requires
        env_wf(m),
        m.state == EnvelopeState::Release,
    ensures
        env_step(m).state == EnvelopeState::Release || env_step(m).state == EnvelopeState::Idle,
        env_step(m).state == EnvelopeState::Idle ==> env_step(m).value == 0,
        env_step(m).state == EnvelopeState::Release ==> env_step(env_step(m)).value
            <= env_step(m).value,
{
    if !(m.rel <= 0 || m.pos + UNIT >= m.rel) {
        let m1 = env_step(m);
        if m1.pos + UNIT < m1.rel {
            lemma_scale_monotone(m.pos, m1.pos, m.rsv, m.rel);
        } else {
            lemma_scale_within(m.pos, m.rsv, m.rel);
        }
    }
}

/// Law: a release converges to zero within its duration. From any point of
/// the release phase, once enough whole samples have passed to cover the
/// remaining release time, the envelope is idle at exactly zero.
pub proof fn lemma_release_converges(m: EnvModel, k: int)
    requires
        env_wf(m),
        m.state == EnvelopeState::Release,
        k >= 1,
        m.pos + k * UNIT >= m.rel,
    ensures
        env_iter(m, k).state == EnvelopeState::Idle,
        env_iter(m, k).value == 0,
    decreases k,
{
    let m1 = env_step(m);
    lemma_env_step_wf(m);
    lemma_env_iter_shift(m, k);
    if m.rel <= 0 || m.pos + UNIT >= m.rel {
        if k > 1 {
            lemma_idle_stays(m1, k - 1);
        }
    } else {
        lemma_release_converges(m1, k - 1);
    }
}

/// Law: the release ramp is exactly linear. While the release of a freshly
/// released note still has time left, the `k`-th sample after `note_off`
/// is exactly the captured level minus the floor of `(k - 1) /
/// release_samples` of it: the ramp starts at the captured level and falls
/// in proportion to the elapsed samples.
pub proof fn lemma_release_ramp_value(m: EnvModel, k: int)
    requires
        env_wf(m),
        k >= 1,
        k * UNIT < m.rel,
    ensures
        env_iter(env_note_off(m), k).state == EnvelopeState::Release,
        env_iter(env_note_off(m), k).pos == k * UNIT,
        env_iter(env_note_off(m), k).rel == m.rel,
        env_iter(env_note_off(m), k).rsv == m.value,
        env_iter(env_note_off(m), k).value == m.value - (k - 1) * UNIT * m.value / m.rel,
    decreases k,
{
    let m0 = env_note_off(m);
    if k == 1 {
        assert(env_iter(m0, 0) == m0);
        assert(env_iter(m0, 1) == env_step(m0));
        vstd::arithmetic::div_mod::lemma_div_of0(m0.rel);
        assert(0 * m0.rsv == 0);
    } else {
        lemma_release_ramp_value(m, k - 1);
        let e = env_iter(m0, k - 1);
        assert(env_iter(m0, k) == env_step(e));
    }
}

/// Law: whatever phase the envelope was in when `note_off` arrives, the
/// release reaches exactly zero within `release_samples`, counted in whole
/// samples from the `note_off`.
pub proof fn lemma_note_off_converges(m: EnvModel, k: int)
    requires
        env_wf(m),
        k >= 1,
        k * UNIT >= m.rel,
    ensures
        env_iter(env_note_off(m), k).state == EnvelopeState::Idle,
        env_iter(env_note_off(m), k).value == 0,
{
    lemma_release_converges(env_note_off(m), k);
}

/// Law: a retrigger restarts the attack from zero. If a `note_on` arrives
/// while the envelope is mid-attack at a positive level, with an attack
/// longer than one sample, the first sample after the retrigger is exactly
/// zero, strictly below the pre-retrigger level.
pub proof fn lemma_retrigger_restarts(m: EnvModel, v: int)
    requires
        env_wf(m),
        m.state == EnvelopeState::Attack,
        m.att > UNIT,
        m.value > 0,
    ensures
        env_step(env_note_on(m, v)).value == 0,
        env_step(env_note_on(m, v)).value < m.value,
{
    lemma_attack_starts_at_zero(m, v);
}

/// ADSR Envelope generator.
///
/// Generates amplitude envelopes with attack, decay, sustain and release
/// phases. Uses linear ramps for all phases and keeps sample-accurate,
/// fractional-sample timing. `process` allocates nothing and never panics.
pub struct ADSREnvelope {
    /// Current envelope state.
    state: EnvelopeState,
    /// Current envelope output value, `0` to `UNIT`, scaled by velocity.
    current_value: i64,
    /// Sample rate in hertz.
    sample_rate: u32,
    /// Attack time in fixed-point samples.
    attack_samples: i64,
    /// Decay time in fixed-point samples.
    decay_samples: i64,
    /// Sustain level, `0` to `UNIT`.
    sustain_level: i64,
    /// Release time in fixed-point samples.
    release_samples: i64,
    /// Position within the current phase, in fixed-point samples.
    phase_sample: i64,
    /// Velocity scaling, `0` to `UNIT`.
    velocity: i64,
    /// Value at the start of release, so release ramps from any level.
    release_start_value: i64,
}

impl View for ADSREnvelope {
    type V = EnvModel;

    closed spec fn view(&self) -> EnvModel {
        EnvModel {
            state: self.state,
            value: self.current_value as int,
            rate: self.sample_rate as int,
            att: self.attack_samples as int,
            dec: self.decay_samples as int,
            sus: self.sustain_level as int,
            rel: self.release_samples as int,
            pos: self.phase_sample as int,
            vel: self.velocity as int,
            rsv: self.release_start_value as int,
        }
    }
}

impl ADSREnvelope {
    /// The envelope's representation invariant, as a predicate on its model.
    pub open spec fn wf(&self) -> bool {
        env_wf(self@)
    }

    /// Create a new ADSR envelope at the given sample rate, idle, with the
    /// default settings: 10 ms attack, 100 ms decay, 70% sustain and 100 ms
    /// release.
    pub fn new(sample_rate: u32) -> (env: ADSREnvelope)
        ensures
            env.wf(),
            env@ == initial_env(sample_rate as int),
    {
        let mut env = ADSREnvelope {
            state: EnvelopeState::Idle,
            current_value: 0,
            sample_rate,
            attack_samples: 0,
            decay_samples: 0,
            sustain_level: 700_000,
            release_samples: 0,
            phase_sample: 0,
            velocity: UNIT,
            release_start_value: 0,
        };
        env.set_attack_ms(10 * UNIT);
        env.set_decay_ms(100 * UNIT);
        env.set_release_ms(100 * UNIT);
        env
    }

    /// A duration given in fixed-point milliseconds, converted to
    /// fixed-point samples at this envelope's rate.
    fn duration_samples(&self, ms: i64) -> (r: i64)
        ensures
            r == dur_from_ms(ms as int, self@.rate),
            0 <= r <= DUR_MAX,
    {
        if ms <= 0 {
            0
        } else {
            proof {
                vstd::arithmetic::mul::lemma_mul_upper_bound(
                    ms as int,
                    i64::MAX as int,
                    self@.rate,
                    u32::MAX as int,
                );
            }
            let wide: u128 = (ms as u128) * (self.sample_rate as u128) / 1000;
            if wide > DUR_MAX as u128 {
                DUR_MAX
            } else {
                proof {
                    vstd::arithmetic::mul::lemma_mul_nonnegative(ms as int, self@.rate);
                    vstd::arithmetic::div_mod::lemma_div_pos_is_pos(
                        ms as int * self@.rate,
                        1000,
                    );
                }
                wide as i64
            }
        }
    }

    /// Set attack time, in fixed-point milliseconds (`UNIT` ticks per ms).
    pub fn set_attack_ms(&mut self, attack_ms: i64)
        requires
            old(self).wf(),
        ensures
            final(self).wf(),
            final(self)@ == (EnvModel { att: dur_from_ms(attack_ms as int, old(self)@.rate), ..old(self)@ }),
    {
        self.attack_samples = self.duration_samples(attack_ms);
    }

    /// Set decay time, in fixed-point milliseconds.
    pub fn set_decay_ms(&mut self, decay_ms: i64)
        requires
            old(self).wf(),
        ensures
            final(self).wf(),
            final(self)@ == (EnvModel { dec: dur_from_ms(decay_ms as int, old(self)@.rate), ..old(self)@ }),
    {
        self.decay_samples = self.duration_samples(decay_ms);
    }

    /// Set sustain level, `0` to `UNIT`; out-of-range values are clamped.
    pub fn set_sustain_level(&mut self, sustain_level: i64)
        requires
            old(self).wf(),
        ensures
            final(self).wf(),
            final(self)@ == (EnvModel { sus: crate::util::spec_clamp(sustain_level as int, 0, UNIT as int), ..old(self)@ }),
    {
        self.sustain_level = clamp(sustain_level, 0, UNIT);
    }

    /// Set release time, in fixed-point milliseconds.
    pub fn set_release_ms(&mut self, release_ms: i64)
        requires
            old(self).wf(),
        ensures
            final(self).wf(),
            final(self)@ == (EnvModel { rel: dur_from_ms(release_ms as int, old(self)@.rate), ..old(self)@ }),
    {
        self.release_samples = self.duration_samples(release_ms);
    }

    /// Trigger note on: clamp the velocity (`UNIT` is full) and restart the
    /// attack phase from level zero, whatever the state was before.
    pub fn note_on(&mut self, velocity: i64)
        requires
            old(self).wf(),
        ensures
            final(self).wf(),
            final(self)@ == env_note_on(old(self)@, velocity as int),
    {
        self.velocity = clamp(velocity, 0, UNIT);
        self.state = EnvelopeState::Attack;
        self.phase_sample = 0;
        self.current_value = 0;
    }

    /// Trigger note off: enter the release phase, ramping down from the
    /// level the envelope actually holds right now.
    pub fn note_off(&mut self)
        requires
            old(self).wf(),
        ensures
            final(self).wf(),
            final(self)@ == env_note_off(old(self)@),
    {
        self.state = EnvelopeState::Release;
        self.phase_sample = 0;
        self.release_start_value = self.current_value;
    }

    /// The decay part of a step; entered either from the decay state or by
    /// falling through an instant attack within the same call.
    fn decay_step(&mut self)
        requires
            old(self).wf(),
            old(self)@.state == EnvelopeState::Decay,
        ensures
            final(self).wf(),
            final(self)@ == env_decay_step(old(self)@),
    {
        proof {
            lemma_sus_target_within(old(self)@);
        }
        let target = mul_div(self.sustain_level, self.velocity, UNIT);
        if self.decay_samples <= 0 || self.phase_sample + UNIT >= self.decay_samples {
            self.state = EnvelopeState::Sustain;
            self.phase_sample = 0;
            self.current_value = target;
        } else {
            proof {
                lemma_scale_within(
                    old(self)@.pos,
                    old(self)@.vel - sus_target(old(self)@),
                    old(self)@.dec,
                );
            }
            let drop_amount = mul_div(self.phase_sample, self.velocity - target, self.decay_samples);
            self.current_value = self.velocity - drop_amount;
            self.phase_sample = self.phase_sample + UNIT;
            proof {
                vstd::arithmetic::mul::lemma_mul_is_commutative(
                    old(self)@.pos,
                    old(self)@.vel - sus_target(old(self)@),
                );
            }
        }
    }

    /// Process one sample: advance the state machine and return the new
    /// amplitude, exactly as [`env_step`] describes. Zero-length phases
    /// collapse into the next phase within this same call.
    pub fn process(&mut self) -> (r: i64)
        requires
            old(self).wf(),
        ensures
            final(self).wf(),
            final(self)@ == env_step(old(self)@),
            r == final(self)@.value,
    {
        match self.state {
            EnvelopeState::Idle => {
                self.current_value = 0;
            },
            EnvelopeState::Attack => {
                if self.attack_samples <= 0 {
                    self.current_value = self.velocity;
                    self.state = EnvelopeState::Decay;
                    self.phase_sample = 0;
                    self.decay_step();
                } else if self.phase_sample + UNIT >= self.attack_samples {
                    self.current_value = self.velocity;
                    self.state = EnvelopeState::Decay;
                    self.phase_sample = 0;
                } else {
                    proof {
                        lemma_scale_within(old(self)@.pos, old(self)@.vel, old(self)@.att);
                        vstd::arithmetic::mul::lemma_mul_is_commutative(
                            old(self)@.pos,
                            old(self)@.vel,
                        );
                    }
                    self.current_value = mul_div(
                        self.phase_sample,
                        self.velocity,
                        self.attack_samples,
                    );
                    self.phase_sample = self.phase_sample + UNIT;
                }
            },
            EnvelopeState::Decay => {
                self.decay_step();
            },
            EnvelopeState::Sustain => {
                proof {
                    lemma_sus_target_within(old(self)@);
                }
                self.current_value = mul_div(self.sustain_level, self.velocity, UNIT);
            },
            EnvelopeState::Release => {
                if self.release_samples <= 0 || self.phase_sample + UNIT >= self.release_samples {
                    self.state = EnvelopeState::Idle;
                    self.phase_sample = 0;
                    self.current_value = 0;
                } else {
                    proof {
                        lemma_scale_within(old(self)@.pos, old(self)@.rsv, old(self)@.rel);
                        vstd::arithmetic::mul::lemma_mul_is_commutative(
                            old(self)@.pos,
                            old(self)@.rsv,
                        );
                    }
                    let drop_amount = mul_div(
                        self.phase_sample,
                        self.release_start_value,
                        self.release_samples,
                    );
                    self.current_value = self.release_start_value - drop_amount;
                    self.phase_sample = self.phase_sample + UNIT;
                }
            },
        }
        self.current_value
    }

    /// Check if envelope is active (not idle).
    pub fn is_active(&self) -> (r: bool)
        ensures
            r == (self@.state != EnvelopeState::Idle),
    {
        self.state != EnvelopeState::Idle
    }

    /// Get current envelope state.
    pub fn get_state(&self) -> (r: EnvelopeState)
        ensures
            r == self@.state,
    {
        self.state
    }

    /// Reset envelope to the idle state at level zero.
    pub fn reset(&mut self)
        requires
            old(self).wf(),
        ensures
            final(self).wf(),
            final(self)@ == (EnvModel {
                state: EnvelopeState::Idle,
                value: 0,
                pos: 0,
                ..old(self)@
            }),
    {
        self.state = EnvelopeState::Idle;
        self.current_value = 0;
        self.phase_sample = 0;
    }
}

} // verus!
