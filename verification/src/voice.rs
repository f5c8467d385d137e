//! Polyphonic voices and the fixed-capacity voice pool.
//!
//! A [`Voice`] binds one oscillator, one envelope and a note identity, and
//! produces one audio sample per call as the product of oscillator output
//! and envelope output at the note's pitch. The [`VoiceManager`] owns a
//! fixed pool of voices and implements allocation, retrigger and stealing.

use vstd::prelude::*;

use crate::envelope::{
    env_note_off, env_note_on, env_step, env_wf, initial_env, lemma_env_step_wf, ADSREnvelope,
    EnvModel, EnvelopeState,
};
use crate::oscillators::{
    osc_advance, osc_wf, sawtooth_sample, sine_sample, square_sample, triangle_sample, OscModel,
    Oscillator, WaveformType,
};
use crate::util::{spec_midi_freq_uhz, MAX_POLYPHONY, UNIT};

verus! {

/// Voice state machine. A voice is idle only once its envelope has fully
/// returned to idle; a released note keeps its voice in `Releasing` while
/// the envelope fades.
#[derive(Clone, Copy, Debug, PartialEq, Eq, Structural)]
pub enum VoiceState {
    Idle,
    Active,
    Releasing,
}

/// Mathematical model of a voice.
pub ghost struct VoiceModel {
    /// The owned oscillator.
    pub osc: OscModel,
    /// The owned envelope.
    pub env: EnvModel,
    /// MIDI note number the voice is sounding.
    pub note: u8,
    /// Current voice state.
    pub state: VoiceState,
    /// Selected waveform.
    pub waveform: WaveformType,
    /// Age stamp for stealing tie-breaks.
    pub age: int,
}

/// Well-formedness of a voice model: both parts well-formed, and the voice
/// is only idle when its envelope is idle.
pub open spec fn voice_wf(v: VoiceModel) -> bool {
    &&& osc_wf(v.osc)
    &&& env_wf(v.env)
    &&& (v.state == VoiceState::Idle ==> v.env.state == EnvelopeState::Idle)
}

/// The selected waveform evaluated at a phase.
pub open spec fn wave_sample(w: WaveformType, p: int) -> int {
    match w {
        WaveformType::Sine => sine_sample(p),
        WaveformType::Sawtooth => sawtooth_sample(p),
        WaveformType::Square => square_sample(p),
        WaveformType::Triangle => triangle_sample(p),
    }
}

/// A fixed-point product of a sample and a non-negative gain, rounded
/// toward zero: `a * b / UNIT` with the sign of `a`.
pub open spec fn amp_scale(a: int, b: int) -> int {
    if a >= 0 {
        a * b / (UNIT as int)
    } else {
        -((-a) * b / (UNIT as int))
    }
}

/// What `note_on` does to a voice: adopt the note, go active, restart the
/// envelope at the clamped velocity and reset the oscillator phase.
pub open spec fn voice_note_on(v: VoiceModel, note: u8, velocity: int) -> VoiceModel {
    VoiceModel {
        note,
        state: VoiceState::Active,
        env: env_note_on(v.env, velocity),
        osc: OscModel { phase: 0, ..v.osc },
        ..v
    }
}

/// What `note_off` does to a voice: go releasing and start the envelope's
/// release from its current level.
pub open spec fn voice_note_off(v: VoiceModel) -> VoiceModel {
    VoiceModel { state: VoiceState::Releasing, env: env_note_off(v.env), ..v }
}

/// What `reset` does to a voice: back to idle with the envelope idle at
/// zero and the oscillator phase at zero.
pub open spec fn voice_reset(v: VoiceModel) -> VoiceModel {
    VoiceModel {
        state: VoiceState::Idle,
        env: (EnvModel { state: EnvelopeState::Idle, value: 0, pos: 0, ..v.env }),
        osc: (OscModel { phase: 0, ..v.osc }),
        ..v
    }
}

/// The model of a freshly constructed voice: idle on note zero, sounding a
/// sine, with a fresh oscillator and envelope at the given rate.
pub open spec fn initial_voice(rate: int) -> VoiceModel {
    VoiceModel {
        osc: (OscModel { phase: 0, rate }),
        env: initial_env(rate),
        note: 0,
        state: VoiceState::Idle,
        waveform: WaveformType::Sine,
        age: 0,
    }
}

/// The voice after one process call: if the envelope has finished, the
/// voice just falls idle; otherwise the oscillator advances at the note's
/// pitch and the envelope steps.
pub open spec fn voice_step(v: VoiceModel) -> VoiceModel {
    if v.env.state == EnvelopeState::Idle {
        VoiceModel { state: VoiceState::Idle, ..v }
    } else {
        VoiceModel {
            osc: osc_advance(v.osc, spec_midi_freq_uhz(v.note as int)),
            env: env_step(v.env),
            ..v
        }
    }
}

/// The sample one process call returns: zero from a finished voice, else
/// the waveform at the pre-advance phase scaled by the new envelope level.
pub open spec fn voice_out(v: VoiceModel) -> int {
    if v.env.state == EnvelopeState::Idle {
        0
    } else {
        amp_scale(wave_sample(v.waveform, v.osc.phase), env_step(v.env).value)
    }
}

/// Law: one voice step keeps the voice well-formed, and its output sample
/// is bounded by one unit of amplitude.
pub proof fn lemma_voice_step_wf(v: VoiceModel)
    requires
        voice_wf(v),
    ensures
        voice_wf(voice_step(v)),
        -UNIT <= voice_out(v) <= UNIT,
{
    if v.env.state != EnvelopeState::Idle {
        lemma_env_step_wf(v.env);
        crate::oscillators::lemma_wrap_phase_range(
            v.osc.phase + crate::oscillators::phase_inc(
                spec_midi_freq_uhz(v.note as int),
                v.osc.rate,
            ),
        );
        crate::oscillators::lemma_wave_bounds(v.osc.phase);
        let a = wave_sample(v.waveform, v.osc.phase);
        let b = env_step(v.env).value;
        if a >= 0 {
            crate::util::lemma_scale_within(b, a, UNIT as int);
            vstd::arithmetic::mul::lemma_mul_is_commutative(a, b);
        } else {
            crate::util::lemma_scale_within(b, -a, UNIT as int);
            vstd::arithmetic::mul::lemma_mul_is_commutative(-a, b);
        }
    }
}

/// `floor(|a| * b / UNIT)` with the sign of `a` put back: the fixed-point
/// product of a waveform sample and an envelope gain.
fn amp_scale_exec(a: i64, b: i64) -> (r: i64)
    requires
        -UNIT <= a <= UNIT,
        0 <= b <= UNIT,
    ensures
        r == amp_scale(a as int, b as int),
        -UNIT <= r <= UNIT,
{
    proof {
        if a >= 0 {
            crate::util::lemma_scale_within(b as int, a as int, UNIT as int);
            vstd::arithmetic::mul::lemma_mul_is_commutative(a as int, b as int);
        } else {
            crate::util::lemma_scale_within(b as int, -(a as int), UNIT as int);
            vstd::arithmetic::mul::lemma_mul_is_commutative(-(a as int), b as int);
        }
    }
    if a >= 0 {
        crate::util::mul_div(a, b, UNIT)
    } else {
        -crate::util::mul_div(-a, b, UNIT)
    }
}

/// Convert MIDI note number to frequency in micro-hertz.
///
/// Uses standard MIDI tuning: A4 (note 69) is exactly 440 Hz, and every
/// octave doubles the frequency.
pub fn midi_note_to_frequency(note: u8) -> (r: i64)
    ensures
        r == spec_midi_freq_uhz(note as int),
        0 < r,
{
    crate::util::midi_note_to_freq(note)
}

/// Single synthesizer voice.
///
/// Each voice contains an oscillator and an envelope, and tracks a MIDI
/// note number. All parts are pre-allocated; processing allocates nothing.
pub struct Voice {
    /// Oscillator for generating waveforms.
    oscillator: Oscillator,
    /// ADSR envelope for amplitude control.
    envelope: ADSREnvelope,
    /// MIDI note number (0 to 127).
    note: u8,
    /// Current voice state.
    state: VoiceState,
    /// Current waveform type.
    waveform: WaveformType,
    /// Voice age, stamped by the pool for stealing tie-breaks.
    age: u64,
}

impl View for Voice {
    type V = VoiceModel;

    closed spec fn view(&self) -> VoiceModel {
        VoiceModel {
            osc: self.oscillator@,
            env: self.envelope@,
            note: self.note,
            state: self.state,
            waveform: self.waveform,
            age: self.age as int,
        }
    }
}

impl Voice {
    /// The voice's representation invariant.
    pub open spec fn wf(&self) -> bool {
        voice_wf(self@)
    }

    /// Create a new idle voice at the given sample rate, sounding a sine
    /// on note zero until told otherwise.
    pub fn new(sample_rate: u32) -> (v: Voice)
        requires
            sample_rate >= 1,
        ensures
            v.wf(),
            v@ == initial_voice(sample_rate as int),
    {
        Voice {
            oscillator: Oscillator::new(sample_rate),
            envelope: ADSREnvelope::new(sample_rate),
            note: 0,
            state: VoiceState::Idle,
            waveform: WaveformType::Sine,
            age: 0,
        }
    }

    /// Trigger note on: adopt the note identity, go active, restart the
    /// envelope at the clamped velocity and reset the oscillator phase.
    pub fn note_on(&mut self, note: u8, velocity: i64)
        requires
            old(self).wf(),
        ensures
            final(self).wf(),
            final(self)@ == voice_note_on(old(self)@, note, velocity as int),
    {
        self.note = note;
        self.state = VoiceState::Active;
        self.envelope.note_on(velocity);
        self.oscillator.reset();
    }

    /// Trigger note off: go releasing; the envelope ramps down from its
    /// current level.
    pub fn note_off(&mut self)
        requires
            old(self).wf(),
        ensures
            final(self).wf(),
            final(self)@ == voice_note_off(old(self)@),
    {
        self.state = VoiceState::Releasing;
        self.envelope.note_off();
    }

    /// Process one sample: zero once the envelope has finished (the voice
    /// then falls idle), otherwise the waveform at the note's pitch scaled
    /// by the envelope.
    pub fn process(&mut self) -> (r: i64)
        requires
            old(self).wf(),
        ensures
            final(self).wf(),
            final(self)@ == voice_step(old(self)@),
            r == voice_out(old(self)@),
            -UNIT <= r <= UNIT,
    {
        proof {
            lemma_voice_step_wf(old(self)@);
        }
        if !self.envelope.is_active() {
            self.state = VoiceState::Idle;
            return 0;
        }
        let frequency = midi_note_to_frequency(self.note);
        let audio = match self.waveform {
            WaveformType::Sine => self.oscillator.process_sine(frequency),
            WaveformType::Sawtooth => self.oscillator.process_sawtooth(frequency),
            WaveformType::Square => self.oscillator.process_square(frequency),
            WaveformType::Triangle => self.oscillator.process_triangle(frequency),
        };
        let envelope_value = self.envelope.process();
        amp_scale_exec(audio, envelope_value)
    }

    /// Get voice state.
    pub fn get_state(&self) -> (r: VoiceState)
        ensures
            r == self@.state,
    {
        self.state
    }

    /// Get MIDI note number.
    pub fn get_note(&self) -> (r: u8)
        ensures
            r == self@.note,
    {
        self.note
    }

    /// Get voice age.
    pub fn get_age(&self) -> (r: u64)
        ensures
            r as int == self@.age,
    {
        self.age
    }

    /// Set voice age (stamped by the pool on every claim).
    pub fn set_age(&mut self, age: u64)
        requires
            old(self).wf(),
        ensures
            final(self).wf(),
            final(self)@ == (VoiceModel { age: age as int, ..old(self)@ }),
    {
        self.age = age;
    }

    /// Set waveform type; it takes effect on the next processed sample.
    pub fn set_waveform(&mut self, waveform: WaveformType)
        requires
            old(self).wf(),
        ensures
            final(self).wf(),
            final(self)@ == (VoiceModel { waveform, ..old(self)@ }),
    {
        self.waveform = waveform;
    }

    /// Set envelope attack time, in fixed-point milliseconds.
    pub fn set_envelope_attack_ms(&mut self, attack_ms: i64)
        requires
            old(self).wf(),
        ensures
            final(self).wf(),
            final(self)@ == (VoiceModel {
                env: (EnvModel {
                    att: crate::envelope::dur_from_ms(attack_ms as int, old(self)@.env.rate),
                    ..old(self)@.env
                }),
                ..old(self)@
            }),
    {
        self.envelope.set_attack_ms(attack_ms);
    }

    /// Set envelope decay time, in fixed-point milliseconds.
    pub fn set_envelope_decay_ms(&mut self, decay_ms: i64)
        requires
            old(self).wf(),
        ensures
            final(self).wf(),
            final(self)@ == (VoiceModel {
                env: (EnvModel {
                    dec: crate::envelope::dur_from_ms(decay_ms as int, old(self)@.env.rate),
                    ..old(self)@.env
                }),
                ..old(self)@
            }),
    {
        self.envelope.set_decay_ms(decay_ms);
    }

    /// Set envelope sustain level, clamped into `[0, UNIT]`.
    pub fn set_envelope_sustain_level(&mut self, sustain_level: i64)
        requires
            old(self).wf(),
        ensures
            final(self).wf(),
            final(self)@ == (VoiceModel {
                env: (EnvModel {
                    sus: crate::util::spec_clamp(sustain_level as int, 0, UNIT as int),
                    ..old(self)@.env
                }),
                ..old(self)@
            }),
    {
        self.envelope.set_sustain_level(sustain_level);
    }

    /// Set envelope release time, in fixed-point milliseconds.
    pub fn set_envelope_release_ms(&mut self, release_ms: i64)
        requires
            old(self).wf(),
        ensures
            final(self).wf(),
            final(self)@ == (VoiceModel {
                env: (EnvModel {
                    rel: crate::envelope::dur_from_ms(release_ms as int, old(self)@.env.rate),
                    ..old(self)@.env
                }),
                ..old(self)@
            }),
    {
        self.envelope.set_release_ms(release_ms);
    }

    /// Reset voice to the idle state with a silent envelope and a zeroed
    /// oscillator phase.
    pub fn reset(&mut self)
        requires
            old(self).wf(),
        ensures
            final(self).wf(),
            final(self)@ == voice_reset(old(self)@),
    {
        self.state = VoiceState::Idle;
        self.envelope.reset();
        self.oscillator.reset();
    }
}

/// Mathematical model of a voice pool.
pub ghost struct PoolModel {
    /// The models of the pooled voices, in slot order.
    pub voices: Seq<VoiceModel>,
    /// Global age counter, incremented on every claim.
    pub counter: int,
    /// Shared sample rate in hertz.
    pub rate: int,
    /// Fixed capacity of the pool.
    pub max: int,
}

/// Well-formedness of a pool model: the fixed capacity is respected, every
/// voice is well-formed and the counter fits its machine word.
pub open spec fn pool_wf(p: PoolModel) -> bool {
    &&& p.voices.len() == p.max
    &&& 1 <= p.max <= MAX_POLYPHONY
    &&& (forall|i: int| 0 <= i < p.voices.len() ==> voice_wf(#[trigger] p.voices[i]))
    &&& 0 <= p.counter <= u64::MAX
    &&& 1 <= p.rate
}

/// The first slot at or after `i` whose voice already holds this note and
/// is not idle; the pool length when there is none.
pub open spec fn find_held_from(vs: Seq<VoiceModel>, note: u8, i: int) -> int
    decreases vs.len() - i,
{
    if i < 0 || i >= vs.len() {
        vs.len() as int
    } else if vs[i].note == note && vs[i].state != VoiceState::Idle {
        i
    } else {
        find_held_from(vs, note, i + 1)
    }
}

/// The first idle slot at or after `i`; the pool length when there is none.
pub open spec fn find_idle_from(vs: Seq<VoiceModel>, i: int) -> int
    decreases vs.len() - i,
{
    if i < 0 || i >= vs.len() {
        vs.len() as int
    } else if vs[i].state == VoiceState::Idle {
        i
    } else {
        find_idle_from(vs, i + 1)
    }
}

/// A left-to-right scan of the first `n` slots for the releasing voice of
/// least age: the slot and its age, or `-1` when no releasing voice exists.
pub open spec fn oldest_releasing_scan(vs: Seq<VoiceModel>, n: int) -> (int, int)
    decreases n,
{
    if n <= 0 {
        (-1, 0)
    } else {
        let prev = oldest_releasing_scan(vs, n - 1);
        if vs[n - 1].state == VoiceState::Releasing && (prev.0 == -1 || vs[n - 1].age < prev.1) {
            (n - 1, vs[n - 1].age)
        } else {
            prev
        }
    }
}

/// A left-to-right scan of the first `n` slots for the voice of least age
/// over the whole pool: the slot and its age (slot zero to start).
pub open spec fn oldest_scan(vs: Seq<VoiceModel>, n: int) -> (int, int)
    decreases n,
{
    if n <= 1 {
        (0, vs[0].age)
    } else {
        let prev = oldest_scan(vs, n - 1);
        if vs[n - 1].age < prev.1 {
            (n - 1, vs[n - 1].age)
        } else {
            prev
        }
    }
}

/// The slot the stealing policy picks: the oldest releasing voice when one
/// exists (a fading voice is cheaper to cut), else the oldest voice of all.
pub open spec fn steal_target(vs: Seq<VoiceModel>) -> int {
    let rel = oldest_releasing_scan(vs, vs.len() as int);
    if rel.0 >= 0 {
        rel.0
    } else {
        oldest_scan(vs, vs.len() as int).0
    }
}

/// The slot a note-on claims, in strict priority order: a non-idle voice
/// already holding this note (retrigger), else the first idle voice, else
/// the slot the stealing policy picks.
pub open spec fn note_on_target(vs: Seq<VoiceModel>, note: u8) -> int {
    if find_held_from(vs, note, 0) < vs.len() {
        find_held_from(vs, note, 0)
    } else if find_idle_from(vs, 0) < vs.len() {
        find_idle_from(vs, 0)
    } else {
        steal_target(vs)
    }
}

/// A voice as a note-on claim leaves it: retriggered onto the note and
/// stamped with a fresh age.
pub open spec fn claimed(v: VoiceModel, note: u8, velocity: int, age: int) -> VoiceModel {
    VoiceModel { age, ..voice_note_on(v, note, velocity) }
}

/// A voice as a pool note-off leaves it: released if it is the active voice
/// of this note, untouched otherwise (a voice already releasing is left
/// alone).
pub open spec fn note_off_upd(v: VoiceModel, note: u8) -> VoiceModel {
    if v.note == note && v.state == VoiceState::Active {
        voice_note_off(v)
    } else {
        v
    }
}

/// One mixing step of a pooled voice: idle voices are not processed at all.
pub open spec fn pool_voice_step(v: VoiceModel) -> VoiceModel {
    if v.state == VoiceState::Idle {
        v
    } else {
        voice_step(v)
    }
}

/// What a pooled voice contributes to one output sample: nothing when idle.
pub open spec fn pool_voice_out(v: VoiceModel) -> int {
    if v.state == VoiceState::Idle {
        0
    } else {
        voice_out(v)
    }
}

/// All voices advanced by one output sample.
pub open spec fn stepped(vs: Seq<VoiceModel>) -> Seq<VoiceModel> {
    Seq::new(vs.len(), |i: int| pool_voice_step(vs[i]))
}

/// The mixed value of one output sample over the first `n` voices.
pub open spec fn mix_sum(vs: Seq<VoiceModel>, n: int) -> int
    decreases n,
{
    if n <= 0 {
        0
    } else {
        mix_sum(vs, n - 1) + pool_voice_out(vs[n - 1])
    }
}

/// The pool's voices after `k` output samples.
pub open spec fn pool_after(vs: Seq<VoiceModel>, k: int) -> Seq<VoiceModel>
    decreases k,
{
    if k <= 0 {
        vs
    } else {
        stepped(pool_after(vs, k - 1))
    }
}

/// The `k`-th output sample of a pool run: every non-idle voice's output at
/// that instant, summed.
pub open spec fn pool_sample(vs: Seq<VoiceModel>, k: int) -> int {
    mix_sum(pool_after(vs, k), pool_after(vs, k).len() as int)
}

/// How many of the first `n` voices are not idle.
pub open spec fn count_non_idle(vs: Seq<VoiceModel>, n: int) -> int
    decreases n,
{
    if n <= 0 {
        0
    } else {
        count_non_idle(vs, n - 1) + if vs[n - 1].state != VoiceState::Idle {
            1 as int
        } else {
            0 as int
        }
    }
}

/// How many of the first `n` voices are releasing.
pub open spec fn count_releasing(vs: Seq<VoiceModel>, n: int) -> int
    decreases n,
{
    if n <= 0 {
        0
    } else {
        count_releasing(vs, n - 1) + if vs[n - 1].state == VoiceState::Releasing {
            1 as int
        } else {
            0 as int
        }
    }
}

/// The notes of the active voices among the first `n`, in slot order.
pub open spec fn active_notes(vs: Seq<VoiceModel>, n: int) -> Seq<u8>
    decreases n,
{
    if n <= 0 {
        Seq::empty()
    } else {
        active_notes(vs, n - 1) + if vs[n - 1].state == VoiceState::Active {
            seq![vs[n - 1].note]
        } else {
            Seq::empty()
        }
    }
}

/// Law: the number of non-idle voices can never exceed the number of slots,
/// so the pool respects its capacity whatever sequence of events it saw.
pub proof fn lemma_active_count_bounded(vs: Seq<VoiceModel>, n: int)
    ensures
        0 <= count_non_idle(vs, n) <= (if n >= 0 { n } else { 0 }),
    decreases n,
{
    if n > 0 {
        lemma_active_count_bounded(vs, n - 1);
    }
}

/// A scan over slots none of which holds the note finds no holder.
proof fn lemma_find_held_none(vs: Seq<VoiceModel>, note: u8, k: int)
    requires
        0 <= k <= vs.len(),
        forall|i: int| k <= i < vs.len() ==> !(#[trigger] vs[i].note == note && vs[i].state
            != VoiceState::Idle),
    ensures
        find_held_from(vs, note, k) == vs.len(),
    decreases vs.len() - k,
{
    if k < vs.len() {
        lemma_find_held_none(vs, note, k + 1);
    }
}

/// A scan over slots none of which is idle finds no idle slot.
proof fn lemma_find_idle_none(vs: Seq<VoiceModel>, k: int)
    requires
        0 <= k <= vs.len(),
        forall|i: int| k <= i < vs.len() ==> (#[trigger] vs[i].state) != VoiceState::Idle,
    ensures
        find_idle_from(vs, k) == vs.len(),
    decreases vs.len() - k,
{
    if k < vs.len() {
        lemma_find_idle_none(vs, k + 1);
    }
}

/// A releasing-voice scan over slots none of which is releasing comes back
/// empty.
proof fn lemma_rel_scan_none(vs: Seq<VoiceModel>, n: int)
    requires
        forall|i: int| 0 <= i < n ==> (#[trigger] vs[i].state) != VoiceState::Releasing,
    ensures
        oldest_releasing_scan(vs, n).0 == -1,
    decreases n,
{
    if n > 0 {
        lemma_rel_scan_none(vs, n - 1);
    }
}

/// When exactly one of the first `n` slots is releasing, the
/// releasing-voice scan picks exactly that slot.
proof fn lemma_rel_scan_unique(vs: Seq<VoiceModel>, j: int, n: int)
    requires
        0 <= j < n,
        vs[j].state == VoiceState::Releasing,
        forall|i: int| 0 <= i < n && i != j ==> (#[trigger] vs[i].state) != VoiceState::Releasing,
    ensures
        oldest_releasing_scan(vs, n).0 == j,
    decreases n,
{
    if n - 1 == j {
        lemma_rel_scan_none(vs, n - 1);
    } else {
        lemma_rel_scan_unique(vs, j, n - 1);
    }
}

/// Law: the stealing tie-break prefers a fading voice. In a full pool with
/// no idle voice, no voice holding the incoming note, and exactly one
/// releasing voice, a note-on claims precisely the releasing voice's slot,
/// never one of the active ones.
pub proof fn lemma_steal_prefers_releasing(vs: Seq<VoiceModel>, note: u8, j: int)
    requires
        0 <= j < vs.len(),
        vs[j].state == VoiceState::Releasing,
        forall|i: int| 0 <= i < vs.len() && i != j ==> (#[trigger] vs[i].state)
            == VoiceState::Active,
        forall|i: int| 0 <= i < vs.len() ==> (#[trigger] vs[i].note) != note,
    ensures
        note_on_target(vs, note) == j,
{
    lemma_find_held_none(vs, note, 0);
    lemma_find_idle_none(vs, 0);
    lemma_rel_scan_unique(vs, j, vs.len() as int);
}

/// A holder scan that finds a slot really found a holder of the note.
proof fn lemma_find_held_found(vs: Seq<VoiceModel>, note: u8, k: int)
    requires
        0 <= k <= vs.len(),
        find_held_from(vs, note, k) < vs.len(),
    ensures
        k <= find_held_from(vs, note, k),
        vs[find_held_from(vs, note, k)].note == note,
        vs[find_held_from(vs, note, k)].state != VoiceState::Idle,
    decreases vs.len() - k,
{
    if !(vs[k].note == note && vs[k].state != VoiceState::Idle) {
        lemma_find_held_found(vs, note, k + 1);
    }
}

/// A holder scan that came back empty saw no holder anywhere in its range.
proof fn lemma_find_held_missing(vs: Seq<VoiceModel>, note: u8, k: int, j: int)
    requires
        0 <= k <= j < vs.len(),
        find_held_from(vs, note, k) == vs.len(),
    ensures
        !(vs[j].note == note && vs[j].state != VoiceState::Idle),
    decreases j - k,
{
    if j > k {
        lemma_find_held_missing(vs, note, k + 1, j);
    }
}

/// A holder scan never returns a slot beyond the pool.
proof fn lemma_find_held_range(vs: Seq<VoiceModel>, note: u8, k: int)
    requires
        0 <= k <= vs.len(),
    ensures
        k <= find_held_from(vs, note, k) <= vs.len(),
    decreases vs.len() - k,
{
    if k < vs.len() && !(vs[k].note == note && vs[k].state != VoiceState::Idle) {
        lemma_find_held_range(vs, note, k + 1);
    }
}

/// An idle-slot scan never returns a slot beyond the pool.
proof fn lemma_find_idle_range(vs: Seq<VoiceModel>, k: int)
    requires
        0 <= k <= vs.len(),
    ensures
        k <= find_idle_from(vs, k) <= vs.len(),
    decreases vs.len() - k,
{
    if k < vs.len() && vs[k].state != VoiceState::Idle {
        lemma_find_idle_range(vs, k + 1);
    }
}

/// The slot a releasing-voice scan returns, when it returns one, lies in
/// the scanned range.
proof fn lemma_rel_scan_range(vs: Seq<VoiceModel>, n: int)
    ensures
        oldest_releasing_scan(vs, n).0 == -1 || 0 <= oldest_releasing_scan(vs, n).0 < n,
    decreases n,
{
    if n > 0 {
        lemma_rel_scan_range(vs, n - 1);
    }
}

/// The slot an age scan returns lies in the scanned range.
proof fn lemma_oldest_scan_range(vs: Seq<VoiceModel>, n: int)
    requires
        n >= 1,
    ensures
        0 <= oldest_scan(vs, n).0 < n,
    decreases n,
{
    if n > 1 {
        lemma_oldest_scan_range(vs, n - 1);
    }
}

/// The slot a note-on claims is always a real slot of the pool.
pub proof fn lemma_note_on_target_in_range(vs: Seq<VoiceModel>, note: u8)
    requires
        vs.len() >= 1,
    ensures
        0 <= note_on_target(vs, note) < vs.len(),
{
    lemma_find_held_range(vs, note, 0);
    lemma_find_idle_range(vs, 0);
    if find_held_from(vs, note, 0) < vs.len() {
        lemma_find_held_found(vs, note, 0);
    } else if find_idle_from(vs, 0) < vs.len() {
    } else {
        lemma_rel_scan_range(vs, vs.len() as int);
        lemma_oldest_scan_range(vs, vs.len() as int);
    }
}

/// What a releasing-voice scan guarantees: an empty result means no
/// releasing voice in range, and a found slot is a releasing voice of
/// minimal age among them.
proof fn lemma_rel_scan_props(vs: Seq<VoiceModel>, n: int)
    requires
        0 <= n <= vs.len(),
    ensures
        oldest_releasing_scan(vs, n).0 == -1 ==> forall|i: int| 0 <= i < n ==> (
        #[trigger] vs[i].state) != VoiceState::Releasing,
        oldest_releasing_scan(vs, n).0 >= 0 ==> oldest_releasing_scan(vs, n).0 < n
            && vs[oldest_releasing_scan(vs, n).0].state == VoiceState::Releasing
            && oldest_releasing_scan(vs, n).1 == vs[oldest_releasing_scan(vs, n).0].age,
    decreases n,
{
    if n > 0 {
        lemma_rel_scan_props(vs, n - 1);
    }
}

/// A releasing-voice scan never settles for more than any releasing
/// voice's age: whatever releasing slot one points at, the scan's age is
/// no larger.
proof fn lemma_rel_scan_min(vs: Seq<VoiceModel>, n: int, i: int)
    requires
        0 <= i < n <= vs.len(),
        vs[i].state == VoiceState::Releasing,
    ensures
        oldest_releasing_scan(vs, n).0 >= 0,
        oldest_releasing_scan(vs, n).1 <= vs[i].age,
    decreases n,
{
    lemma_rel_scan_props(vs, n - 1);
    lemma_rel_scan_range(vs, n - 1);
    if i < n - 1 {
        lemma_rel_scan_min(vs, n - 1, i);
    }
}

/// What a whole-pool age scan guarantees: the found slot holds the least
/// age of all scanned slots.
proof fn lemma_oldest_scan_props(vs: Seq<VoiceModel>, n: int)
    requires
        1 <= n <= vs.len(),
    ensures
        0 <= oldest_scan(vs, n).0 < n,
        oldest_scan(vs, n).1 == vs[oldest_scan(vs, n).0].age,
        forall|i: int| 0 <= i < n ==> oldest_scan(vs, n).1 <= (#[trigger] vs[i]).age,
    decreases n,
{
    if n > 1 {
        lemma_oldest_scan_props(vs, n - 1);
    }
}

/// Law: the stealing policy prefers a fading voice and, among those, the
/// oldest. Whenever any releasing voice exists, the stolen slot is a
/// releasing voice whose age is least among all releasing voices.
pub proof fn lemma_steal_picks_oldest_releasing(vs: Seq<VoiceModel>, witness: int)
    requires
        0 <= witness < vs.len(),
        vs[witness].state == VoiceState::Releasing,
    ensures
        0 <= steal_target(vs) < vs.len(),
        vs[steal_target(vs)].state == VoiceState::Releasing,
        forall|i: int| 0 <= i < vs.len() && (#[trigger] vs[i].state) == VoiceState::Releasing
            ==> vs[steal_target(vs)].age <= vs[i].age,
{
    lemma_rel_scan_props(vs, vs.len() as int);
    lemma_rel_scan_min(vs, vs.len() as int, witness);
    assert forall|i: int|
        0 <= i < vs.len() && (#[trigger] vs[i].state) == VoiceState::Releasing implies vs[steal_target(
        vs,
    )].age <= vs[i].age by {
        lemma_rel_scan_min(vs, vs.len() as int, i);
    }
}

/// Law: with no voice fading, the stealing policy cuts the oldest voice of
/// all: the stolen slot's age is least over the whole pool.
pub proof fn lemma_steal_picks_oldest_of_all(vs: Seq<VoiceModel>)
    requires
        vs.len() >= 1,
        forall|i: int| 0 <= i < vs.len() ==> (#[trigger] vs[i].state) != VoiceState::Releasing,
    ensures
        0 <= steal_target(vs) < vs.len(),
        forall|i: int| 0 <= i < vs.len() ==> vs[steal_target(vs)].age <= (#[trigger] vs[i]).age,
{
    lemma_rel_scan_none(vs, vs.len() as int);
    lemma_oldest_scan_props(vs, vs.len() as int);
}

/// No two sounding voices share a note: every non-idle pair of slots holds
/// two different note numbers.
pub open spec fn one_voice_per_note(vs: Seq<VoiceModel>) -> bool {
    forall|i: int, j: int|
        #![trigger vs[i].note, vs[j].note]
        0 <= i < j < vs.len() && vs[i].state != VoiceState::Idle && vs[j].state
            != VoiceState::Idle ==> vs[i].note != vs[j].note
}

/// Law: a note-on claim keeps at most one sounding voice per note. A note
/// already sounding is retriggered in place, and a note not sounding is
/// given a slot no other sounding voice shares, so the allocation policy
/// can never create a duplicate.
pub proof fn lemma_note_on_keeps_one_voice_per_note(
    vs: Seq<VoiceModel>,
    note: u8,
    velocity: int,
    age: int,
)
    requires
        vs.len() >= 1,
        one_voice_per_note(vs),
    ensures
        one_voice_per_note(
            vs.update(note_on_target(vs, note), claimed(vs[note_on_target(vs, note)], note, velocity, age)),
        ),
{
    let t = note_on_target(vs, note);
    lemma_note_on_target_in_range(vs, note);
    let ws = vs.update(t, claimed(vs[t], note, velocity, age));
    assert forall|i: int, j: int|
        0 <= i < j < ws.len() && ws[i].state != VoiceState::Idle && ws[j].state
            != VoiceState::Idle implies ws[i].note != ws[j].note by {
        if i != t && j != t {
            assert(ws[i] == vs[i] && ws[j] == vs[j]);
        } else {
            let other = if i == t {
                j
            } else {
                i
            };
            assert(ws[other] == vs[other]);
            lemma_find_held_range(vs, note, 0);
            if find_held_from(vs, note, 0) < vs.len() {
                lemma_find_held_found(vs, note, 0);
                assert(vs[t].note == note && vs[t].state != VoiceState::Idle);
            } else {
                lemma_find_held_missing(vs, note, 0, other);
            }
        }
    }
}

/// Law: a note-off keeps at most one sounding voice per note. Releasing a
/// voice changes no note identity and silences none, so distinctness of
/// the sounding notes carries over.
pub proof fn lemma_note_off_keeps_one_voice_per_note(
    vs: Seq<VoiceModel>,
    ws: Seq<VoiceModel>,
    note: u8,
)
    requires
        one_voice_per_note(vs),
        ws.len() == vs.len(),
        forall|j: int| 0 <= j < vs.len() ==> ws[j] == note_off_upd(#[trigger] vs[j], note),
    ensures
        one_voice_per_note(ws),
{
    assert forall|i: int, j: int|
        0 <= i < j < ws.len() && ws[i].state != VoiceState::Idle && ws[j].state
            != VoiceState::Idle implies ws[i].note != ws[j].note by {
        assert(ws[i] == note_off_upd(vs[i], note));
        assert(ws[j] == note_off_upd(vs[j], note));
    }
}

/// Law: processing keeps at most one sounding voice per note. A processed
/// voice can only keep its note or fall idle, so however many samples are
/// mixed, distinctness of the sounding notes carries over.
pub proof fn lemma_process_keeps_one_voice_per_note(vs: Seq<VoiceModel>, k: int)
    requires
        one_voice_per_note(vs),
        0 <= k,
    ensures
        one_voice_per_note(pool_after(vs, k)),
    decreases k,
{
    if k > 0 {
        lemma_process_keeps_one_voice_per_note(vs, k - 1);
        let prev = pool_after(vs, k - 1);
        assert forall|i: int, j: int|
            0 <= i < j < stepped(prev).len() && stepped(prev)[i].state != VoiceState::Idle
                && stepped(prev)[j].state != VoiceState::Idle implies stepped(prev)[i].note
            != stepped(prev)[j].note by {
            assert(stepped(prev)[i] == pool_voice_step(prev[i]));
            assert(stepped(prev)[j] == pool_voice_step(prev[j]));
            assert(prev[i].note == stepped(prev)[i].note);
            assert(prev[j].note == stepped(prev)[j].note);
        }
    }
}

/// All-idle voices mix to zero.
proof fn lemma_mix_sum_idle(vs: Seq<VoiceModel>, n: int)
    requires
        forall|i: int| 0 <= i < vs.len() ==> (#[trigger] vs[i].state) == VoiceState::Idle,
        n <= vs.len(),
    ensures
        mix_sum(vs, n) == 0,
    decreases n,
{
    if n > 0 {
        lemma_mix_sum_idle(vs, n - 1);
    }
}

/// Law: a pool that has never sounded a note is silent. If every voice is
/// idle, any number of processed samples leaves the voices untouched and
/// every output sample is exactly zero.
pub proof fn lemma_silent_pool(vs: Seq<VoiceModel>, k: int)
    requires
        forall|i: int| 0 <= i < vs.len() ==> (#[trigger] vs[i].state) == VoiceState::Idle,
        0 <= k,
    ensures
        pool_after(vs, k) == vs,
        pool_sample(vs, k) == 0,
    decreases k,
{
    if k == 0 {
        assert(pool_after(vs, 0) == vs);
    } else {
        lemma_silent_pool(vs, k - 1);
        assert(stepped(vs) =~= vs);
    }
    lemma_mix_sum_idle(vs, vs.len() as int);
}

/// One mixing step keeps every voice well-formed.
proof fn lemma_stepped_wf(vs: Seq<VoiceModel>)
    requires
        forall|i: int| 0 <= i < vs.len() ==> voice_wf(#[trigger] vs[i]),
    ensures
        forall|i: int| 0 <= i < vs.len() ==> voice_wf(#[trigger] stepped(vs)[i]),
{
    assert forall|i: int| 0 <= i < vs.len() implies voice_wf(#[trigger] stepped(vs)[i]) by {
        lemma_voice_step_wf(vs[i]);
        assert(stepped(vs)[i] == pool_voice_step(vs[i]));
    }
}

/// Any number of mixing steps keeps every voice well-formed.
proof fn lemma_pool_after_wf(vs: Seq<VoiceModel>, k: int)
    requires
        forall|i: int| 0 <= i < vs.len() ==> voice_wf(#[trigger] vs[i]),
        0 <= k,
    ensures
        pool_after(vs, k).len() == vs.len(),
        forall|i: int| 0 <= i < vs.len() ==> voice_wf(#[trigger] pool_after(vs, k)[i]),
    decreases k,
{
    if k > 0 {
        lemma_pool_after_wf(vs, k - 1);
        lemma_stepped_wf(pool_after(vs, k - 1));
    }
}

/// A mix of `n` well-formed voices is bounded by `n` units of amplitude.
proof fn lemma_mix_sum_bounded(vs: Seq<VoiceModel>, n: int)
    requires
        forall|i: int| 0 <= i < vs.len() ==> voice_wf(#[trigger] vs[i]),
        n <= vs.len(),
    ensures
        -(if n >= 0 { n } else { 0 }) * UNIT <= mix_sum(vs, n) <= (if n >= 0 { n } else { 0 }) * UNIT,
    decreases n,
{
    if n > 0 {
        lemma_mix_sum_bounded(vs, n - 1);
        lemma_voice_step_wf(vs[n - 1]);
    }
}

/// Law: the mixed output is bounded by the polyphony. Every sample a pool
/// of well-formed voices produces lies within plus or minus one amplitude
/// unit per voice slot, however many samples have gone before.
pub proof fn lemma_pool_sample_bounded(vs: Seq<VoiceModel>, k: int)
    requires
        forall|i: int| 0 <= i < vs.len() ==> voice_wf(#[trigger] vs[i]),
        0 <= k,
    ensures
        -(vs.len() as int) * UNIT <= pool_sample(vs, k) <= (vs.len() as int) * UNIT,
{
    lemma_pool_after_wf(vs, k);
    lemma_mix_sum_bounded(pool_after(vs, k), pool_after(vs, k).len() as int);
}

/// Voice manager for polyphonic synthesis.
///
/// Manages a fixed-size pool of voices, pre-allocated at construction, with
/// voice stealing when the polyphony limit is reached. No method allocates
/// after construction and none panics.
pub struct VoiceManager {
    /// Pre-allocated voice pool.
    voices: Vec<Voice>,
    /// Maximum polyphony.
    max_voices: usize,
    /// Global voice age counter.
    voice_age_counter: u64,
    /// Sample rate in hertz.
    sample_rate: u32,
}

impl View for VoiceManager {
    type V = PoolModel;

    closed spec fn view(&self) -> PoolModel {
        PoolModel {
            voices: Seq::new(self.voices@.len(), |i: int| self.voices@[i]@),
            counter: self.voice_age_counter as int,
            rate: self.sample_rate as int,
            max: self.max_voices as int,
        }
    }
}

impl VoiceManager {
    /// The pool's representation invariant.
    pub open spec fn wf(&self) -> bool {
        pool_wf(self@)
    }

    /// Create a new voice manager with `max_voices` pre-allocated voices at
    /// the given sample rate. All voices start idle, so the pool is silent
    /// until the first note-on.
    pub fn new(sample_rate: u32, max_voices: usize) -> (vm: VoiceManager)
        requires
            sample_rate >= 1,
            1 <= max_voices <= MAX_POLYPHONY,
        ensures
            vm.wf(),
            vm@.max == max_voices as int,
            vm@.rate == sample_rate as int,
            vm@.counter == 0,
            vm@.voices.len() == max_voices as int,
            forall|i: int| 0 <= i < max_voices as int ==> vm@.voices[i] == initial_voice(
                sample_rate as int,
            ),
    {
        let mut voices: Vec<Voice> = Vec::with_capacity(max_voices);
        let mut i: usize = 0;
        while i < max_voices
            invariant
                i <= max_voices,
                voices@.len() == i as int,
                sample_rate >= 1,
                forall|j: int| 0 <= j < i as int ==> voices@[j]@ == initial_voice(
                    sample_rate as int,
                ),
            decreases max_voices - i,
        {
            voices.push(Voice::new(sample_rate));
            i = i + 1;
        }
        VoiceManager { voices, max_voices, voice_age_counter: 0, sample_rate }
    }

    /// Claim one slot for a note: retrigger the voice onto the note and
    /// stamp it with the next age.
    fn claim_voice(&mut self, idx: usize, note: u8, velocity: i64)
        requires
            old(self).wf(),
            (idx as int) < old(self)@.voices.len(),
            old(self)@.counter < u64::MAX,
        ensures
            final(self).wf(),
            final(self)@.voices == old(self)@.voices.update(
                idx as int,
                claimed(old(self)@.voices[idx as int], note, velocity as int, old(self)@.counter),
            ),
            final(self)@.counter == old(self)@.counter + 1,
            final(self)@.rate == old(self)@.rate,
            final(self)@.max == old(self)@.max,
    {
        let age = self.voice_age_counter;
        let voice = &mut self.voices[idx];
        voice.note_on(note, velocity);
        voice.set_age(age);
        self.voice_age_counter = age + 1;
        proof {
            assert(self@.voices =~= old(self)@.voices.update(
                idx as int,
                claimed(old(self)@.voices[idx as int], note, velocity as int, old(self)@.counter),
            ));
        }
    }

    /// Trigger note on.
    ///
    /// Claims the slot [`note_on_target`] picks, in strict priority order:
    /// a non-idle voice already holding this note is retriggered, else the
    /// first idle voice is claimed, else a voice is stolen. Every claim
    /// stamps a fresh age, so the age counter must not yet have reached its
    /// maximum.
    pub fn note_on(&mut self, note: u8, velocity: i64)
        requires
            old(self).wf(),
            old(self)@.counter < u64::MAX,
        ensures
            final(self).wf(),
            final(self)@.voices == old(self)@.voices.update(
                note_on_target(old(self)@.voices, note),
                claimed(
                    old(self)@.voices[note_on_target(old(self)@.voices, note)],
                    note,
                    velocity as int,
                    old(self)@.counter,
                ),
            ),
            final(self)@.counter == old(self)@.counter + 1,
            final(self)@.rate == old(self)@.rate,
            final(self)@.max == old(self)@.max,
    {
        let ghost vs = self@.voices;
        let n = self.voices.len();
        let mut i: usize = 0;
        while i < n
            invariant
                self@ == old(self)@,
                self.wf(),
                old(self)@.counter < u64::MAX,
                n as int == vs.len(),
                vs == self@.voices,
                i <= n,
                find_held_from(vs, note, 0) == find_held_from(vs, note, i as int),
            decreases n - i,
        {
            let held = self.voices[i].get_note() == note && self.voices[i].get_state()
                != VoiceState::Idle;
            if held {
                assert(find_held_from(vs, note, i as int) == i as int);
                self.claim_voice(i, note, velocity);
                return ;
            }
            i = i + 1;
        }
        assert(find_held_from(vs, note, 0) == vs.len());
        let mut i: usize = 0;
        while i < n
            invariant
                self@ == old(self)@,
                self.wf(),
                old(self)@.counter < u64::MAX,
                n as int == vs.len(),
                vs == self@.voices,
                i <= n,
                find_held_from(vs, note, 0) == vs.len(),
                find_idle_from(vs, 0) == find_idle_from(vs, i as int),
            decreases n - i,
        {
            if self.voices[i].get_state() == VoiceState::Idle {
                assert(find_idle_from(vs, i as int) == i as int);
                self.claim_voice(i, note, velocity);
                return ;
            }
            i = i + 1;
        }
        assert(find_idle_from(vs, 0) == vs.len());
        self.steal_voice(note, velocity);
    }

    /// Steal a voice for a new note.
    ///
    /// Strategy: prefer the oldest releasing voice (a voice already fading
    /// is least costly to cut); if none is releasing, steal the oldest
    /// voice of all.
    fn steal_voice(&mut self, note: u8, velocity: i64)
        requires
            old(self).wf(),
            old(self)@.counter < u64::MAX,
        ensures
            final(self).wf(),
            final(self)@.voices == old(self)@.voices.update(
                steal_target(old(self)@.voices),
                claimed(
                    old(self)@.voices[steal_target(old(self)@.voices)],
                    note,
                    velocity as int,
                    old(self)@.counter,
                ),
            ),
            final(self)@.counter == old(self)@.counter + 1,
            final(self)@.rate == old(self)@.rate,
            final(self)@.max == old(self)@.max,
    {
        let ghost vs = self@.voices;
        let n = self.voices.len();
        let mut oldest_releasing: usize = 0;
        let mut oldest_releasing_age: u64 = 0;
        let mut found_releasing: bool = false;
        let mut i: usize = 0;
        while i < n
            invariant
                self@ == old(self)@,
                self.wf(),
                n as int == vs.len(),
                vs == self@.voices,
                i <= n,
                found_releasing ==> {
                    &&& oldest_releasing_scan(vs, i as int).0 == oldest_releasing as int
                    &&& oldest_releasing_scan(vs, i as int).1 == oldest_releasing_age as int
                    &&& (oldest_releasing as int) < i as int
                },
                !found_releasing ==> oldest_releasing_scan(vs, i as int).0 == -1,
            decreases n - i,
        {
            let is_releasing = self.voices[i].get_state() == VoiceState::Releasing;
            let age = self.voices[i].get_age();
            if is_releasing && (!found_releasing || age < oldest_releasing_age) {
                oldest_releasing = i;
                oldest_releasing_age = age;
                found_releasing = true;
            }
            i = i + 1;
        }
        if found_releasing {
            self.claim_voice(oldest_releasing, note, velocity);
            return ;
        }
        let mut oldest_index: usize = 0;
        let mut oldest_age: u64 = self.voices[0].get_age();
        let mut i: usize = 1;
        while i < n
            invariant
                self@ == old(self)@,
                self.wf(),
                n as int == vs.len(),
                vs == self@.voices,
                1 <= i <= n,
                (oldest_index as int) < i as int,
                oldest_scan(vs, i as int).0 == oldest_index as int,
                oldest_scan(vs, i as int).1 == oldest_age as int,
            decreases n - i,
        {
            let age = self.voices[i].get_age();
            if age < oldest_age {
                oldest_index = i;
                oldest_age = age;
            }
            i = i + 1;
        }
        self.claim_voice(oldest_index, note, velocity);
    }

    /// Trigger note off: release every voice that holds this note and is
    /// active. Voices already releasing are left alone, so redundant
    /// note-offs are no-ops.
    pub fn note_off(&mut self, note: u8)
        requires
            old(self).wf(),
        ensures
            final(self).wf(),
            final(self)@.voices.len() == old(self)@.voices.len(),
            forall|j: int| 0 <= j < old(self)@.voices.len() ==> final(self)@.voices[j]
                == note_off_upd(#[trigger] old(self)@.voices[j], note),
            final(self)@.counter == old(self)@.counter,
            final(self)@.rate == old(self)@.rate,
            final(self)@.max == old(self)@.max,
    {
        let ghost vs = old(self)@.voices;
        let n = self.voices.len();
        let mut i: usize = 0;
        while i < n
            invariant
                self.wf(),
                n as int == vs.len(),
                self@.voices.len() == vs.len(),
                i <= n,
                forall|j: int| 0 <= j < i as int ==> self@.voices[j] == note_off_upd(
                    #[trigger] vs[j],
                    note,
                ),
                forall|j: int| i as int <= j < vs.len() ==> self@.voices[j] == vs[j],
                self@.counter == old(self)@.counter,
                self@.rate == old(self)@.rate,
                self@.max == old(self)@.max,
            decreases n - i,
        {
            let ghost pvs = self@.voices;
            let matches_note = self.voices[i].get_note() == note && self.voices[i].get_state()
                == VoiceState::Active;
            if matches_note {
                proof {
                    assert(voice_wf(self@.voices[i as int]));
                }
                let voice = &mut self.voices[i];
                voice.note_off();
                proof {
                    assert(self@.voices =~= pvs.update(
                        i as int,
                        voice_note_off(pvs[i as int]),
                    ));
                }
            }
            i = i + 1;
        }
    }

    /// Process audio for all voices into the buffer, sample by sample.
    ///
    /// Every position of the buffer is overwritten with the sum of the
    /// outputs of all non-idle voices at that exact instant, so voices
    /// started or stolen mid-block stay time-aligned. A pool whose voices
    /// are all idle writes an all-zero buffer.
    pub fn process(&mut self, buffer: &mut Vec<i64>)
        requires
            old(self).wf(),
        ensures
            final(self).wf(),
            final(self)@.voices == pool_after(
                old(self)@.voices,
                old(buffer)@.len() as int,
            ),
            final(self)@.counter == old(self)@.counter,
            final(self)@.rate == old(self)@.rate,
            final(self)@.max == old(self)@.max,
            final(buffer)@.len() == old(buffer)@.len(),
            forall|k: int| 0 <= k < old(buffer)@.len() ==> final(buffer)@[k] == pool_sample(
                old(self)@.voices,
                k,
            ),
            forall|k: int| 0 <= k < old(buffer)@.len() ==> -old(self)@.max * UNIT <= #[trigger] (
            final(buffer)@[k] as int) <= old(self)@.max * UNIT,
    {
        let nsamples = buffer.len();
        let nvoices = self.voices.len();
        let mut k: usize = 0;
        while k < nsamples
            invariant
                self.wf(),
                k <= nsamples,
                nvoices as int == self@.voices.len(),
                self@.voices == pool_after(old(self)@.voices, k as int),
                self@.counter == old(self)@.counter,
                self@.rate == old(self)@.rate,
                self@.max == old(self)@.max,
                buffer@.len() == nsamples as int,
                nsamples as int == old(buffer)@.len(),
                forall|j: int| 0 <= j < k as int ==> buffer@[j] == pool_sample(
                    old(self)@.voices,
                    j,
                ),
            decreases nsamples - k,
        {
            let ghost cur = self@.voices;
            let mut acc: i64 = 0;
            let mut i: usize = 0;
            while i < nvoices
                invariant
                    i <= nvoices,
                    nvoices as int == cur.len(),
                    cur.len() == self@.voices.len(),
                    nvoices <= MAX_POLYPHONY,
                    forall|j: int| 0 <= j < cur.len() ==> voice_wf(#[trigger] cur[j]),
                    forall|j: int| 0 <= j < i as int ==> self@.voices[j] == pool_voice_step(
                        #[trigger] cur[j],
                    ),
                    forall|j: int| i as int <= j < cur.len() ==> self@.voices[j] == cur[j],
                    forall|j: int| 0 <= j < cur.len() ==> voice_wf(#[trigger] self@.voices[j]),
                    self@.counter == old(self)@.counter,
                    self@.rate == old(self)@.rate,
                    self@.max == old(self)@.max,
                    acc == mix_sum(cur, i as int),
                    -(i as int) * (UNIT as int) <= acc as int <= (i as int) * (UNIT as int),
                decreases nvoices - i,
            {
                let ghost pvs = self@.voices;
                let st = self.voices[i].get_state();
                if st != VoiceState::Idle {
                    proof {
                        lemma_voice_step_wf(cur[i as int]);
                        assert(voice_wf(self@.voices[i as int]));
                    }
                    let voice = &mut self.voices[i];
                    let s = voice.process();
                    acc = acc + s;
                    proof {
                        assert(self@.voices =~= pvs.update(
                            i as int,
                            voice_step(pvs[i as int]),
                        ));
                    }
                } else {
                    proof {
                        assert(pool_voice_out(cur[i as int]) == 0);
                        assert(pool_voice_step(cur[i as int]) == cur[i as int]);
                    }
                }
                i = i + 1;
            }
            proof {
                assert(self@.voices =~= stepped(cur));
                assert(pool_after(old(self)@.voices, k as int + 1) == stepped(
                    pool_after(old(self)@.voices, k as int),
                ));
                assert(acc == pool_sample(old(self)@.voices, k as int));
            }
            buffer[k] = acc;
            k = k + 1;
        }
        proof {
            assert forall|k2: int| 0 <= k2 < old(buffer)@.len() implies -old(self)@.max * UNIT
                <= #[trigger] (buffer@[k2] as int) <= old(self)@.max * UNIT by {
                lemma_pool_sample_bounded(old(self)@.voices, k2);
            }
        }
    }

    /// Get the number of non-idle voices; never more than the capacity.
    pub fn active_voice_count(&self) -> (r: usize)
        requires
            self.wf(),
        ensures
            r as int == count_non_idle(self@.voices, self@.voices.len() as int),
            r as int <= self@.max,
    {
        let n = self.voices.len();
        let mut count: usize = 0;
        let mut i: usize = 0;
        while i < n
            invariant
                i <= n,
                n as int == self@.voices.len(),
                count as int == count_non_idle(self@.voices, i as int),
                count <= i,
            decreases n - i,
        {
            if self.voices[i].get_state() != VoiceState::Idle {
                count = count + 1;
            }
            i = i + 1;
        }
        count
    }

    /// Get the number of releasing voices.
    pub fn releasing_voice_count(&self) -> (r: usize)
        requires
            self.wf(),
        ensures
            r as int == count_releasing(self@.voices, self@.voices.len() as int),
            r as int <= self@.max,
    {
        let n = self.voices.len();
        let mut count: usize = 0;
        let mut i: usize = 0;
        while i < n
            invariant
                i <= n,
                n as int == self@.voices.len(),
                count as int == count_releasing(self@.voices, i as int),
                count <= i,
            decreases n - i,
        {
            if self.voices[i].get_state() == VoiceState::Releasing {
                count = count + 1;
            }
            i = i + 1;
        }
        count
    }

    /// Get the notes of the active voices, in slot order.
    pub fn get_active_notes(&self) -> (r: Vec<u8>)
        requires
            self.wf(),
        ensures
            r@ == active_notes(self@.voices, self@.voices.len() as int),
    {
        let n = self.voices.len();
        let mut notes: Vec<u8> = Vec::new();
        let mut i: usize = 0;
        while i < n
            invariant
                i <= n,
                n as int == self@.voices.len(),
                notes@ == active_notes(self@.voices, i as int),
            decreases n - i,
        {
            if self.voices[i].get_state() == VoiceState::Active {
                notes.push(self.voices[i].get_note());
            }
            proof {
                assert(notes@ =~= active_notes(self@.voices, i as int + 1));
            }
            i = i + 1;
        }
        notes
    }

    /// Get every voice's state, in slot order.
    pub fn get_voice_states(&self) -> (r: Vec<VoiceState>)
        requires
            self.wf(),
        ensures
            r@.len() == self@.voices.len(),
            forall|j: int| 0 <= j < self@.voices.len() ==> r@[j] == self@.voices[j].state,
    {
        let n = self.voices.len();
        let mut states: Vec<VoiceState> = Vec::new();
        let mut i: usize = 0;
        while i < n
            invariant
                i <= n,
                n as int == self@.voices.len(),
                states@.len() == i as int,
                forall|j: int| 0 <= j < i as int ==> states@[j] == self@.voices[j].state,
            decreases n - i,
        {
            states.push(self.voices[i].get_state());
            i = i + 1;
        }
        states
    }

    /// Get the pool's fixed capacity.
    pub fn max_voice_count(&self) -> (r: usize)
        ensures
            r as int == self@.max,
    {
        self.max_voices
    }

    /// Reset all voices to idle. The age counter is left alone.
    pub fn reset(&mut self)
        requires
            old(self).wf(),
        ensures
            final(self).wf(),
            final(self)@.voices.len() == old(self)@.voices.len(),
            forall|j: int| 0 <= j < old(self)@.voices.len() ==> final(self)@.voices[j]
                == voice_reset(#[trigger] old(self)@.voices[j]),
            final(self)@.counter == old(self)@.counter,
            final(self)@.rate == old(self)@.rate,
            final(self)@.max == old(self)@.max,
    {
        let ghost vs = old(self)@.voices;
        let n = self.voices.len();
        let mut i: usize = 0;
        while i < n
            invariant
                self.wf(),
                n as int == vs.len(),
                self@.voices.len() == vs.len(),
                i <= n,
                forall|j: int| 0 <= j < i as int ==> self@.voices[j] == voice_reset(
                    #[trigger] vs[j],
                ),
                forall|j: int| i as int <= j < vs.len() ==> self@.voices[j] == vs[j],
                self@.counter == old(self)@.counter,
                self@.rate == old(self)@.rate,
                self@.max == old(self)@.max,
            decreases n - i,
        {
            let ghost pvs = self@.voices;
            proof {
                assert(voice_wf(self@.voices[i as int]));
            }
            let voice = &mut self.voices[i];
            voice.reset();
            proof {
                assert(self@.voices =~= pvs.update(i as int, voice_reset(pvs[i as int])));
            }
            i = i + 1;
        }
    }

    /// Update the waveform of every voice; a broadcast write done once per
    /// block, before sample processing.
    pub fn set_waveform(&mut self, waveform: WaveformType)
        requires
            old(self).wf(),
        ensures
            final(self).wf(),
            final(self)@.voices.len() == old(self)@.voices.len(),
            forall|j: int| 0 <= j < old(self)@.voices.len() ==> final(self)@.voices[j]
                == (VoiceModel { waveform, ..#[trigger] old(self)@.voices[j] }),
            final(self)@.counter == old(self)@.counter,
            final(self)@.rate == old(self)@.rate,
            final(self)@.max == old(self)@.max,
    {
        let ghost vs = old(self)@.voices;
        let n = self.voices.len();
        let mut i: usize = 0;
        while i < n
            invariant
                self.wf(),
                n as int == vs.len(),
                self@.voices.len() == vs.len(),
                i <= n,
                forall|j: int| 0 <= j < i as int ==> self@.voices[j] == (VoiceModel {
                    waveform,
                    ..#[trigger] vs[j]
                }),
                forall|j: int| i as int <= j < vs.len() ==> self@.voices[j] == vs[j],
                self@.counter == old(self)@.counter,
                self@.rate == old(self)@.rate,
                self@.max == old(self)@.max,
            decreases n - i,
        {
            let ghost pvs = self@.voices;
            proof {
                assert(voice_wf(self@.voices[i as int]));
            }
            let voice = &mut self.voices[i];
            voice.set_waveform(waveform);
            proof {
                assert(self@.voices =~= pvs.update(
                    i as int,
                    (VoiceModel { waveform, ..pvs[i as int] }),
                ));
            }
            i = i + 1;
        }
    }

    /// Update the attack time of every voice, in fixed-point milliseconds.
    pub fn set_attack_ms(&mut self, attack_ms: i64)
        requires
            old(self).wf(),
        ensures
            final(self).wf(),
            final(self)@.voices.len() == old(self)@.voices.len(),
            forall|j: int| 0 <= j < old(self)@.voices.len() ==> final(self)@.voices[j]
                == (VoiceModel {
                env: (EnvModel {
                    att: crate::envelope::dur_from_ms(
                        attack_ms as int,
                        old(self)@.voices[j].env.rate,
                    ),
                    ..old(self)@.voices[j].env
                }),
                ..#[trigger] old(self)@.voices[j]
            }),
            final(self)@.counter == old(self)@.counter,
            final(self)@.rate == old(self)@.rate,
            final(self)@.max == old(self)@.max,
    {
        let ghost vs = old(self)@.voices;
        let n = self.voices.len();
        let mut i: usize = 0;
        while i < n
            invariant
                self.wf(),
                n as int == vs.len(),
                self@.voices.len() == vs.len(),
                i <= n,
                forall|j: int| 0 <= j < i as int ==> self@.voices[j] == (VoiceModel {
                    env: (EnvModel {
                        att: crate::envelope::dur_from_ms(attack_ms as int, vs[j].env.rate),
                        ..vs[j].env
                    }),
                    ..#[trigger] vs[j]
                }),
                forall|j: int| i as int <= j < vs.len() ==> self@.voices[j] == vs[j],
                self@.counter == old(self)@.counter,
                self@.rate == old(self)@.rate,
                self@.max == old(self)@.max,
            decreases n - i,
        {
            let ghost pvs = self@.voices;
            proof {
                assert(voice_wf(self@.voices[i as int]));
            }
            let voice = &mut self.voices[i];
            voice.set_envelope_attack_ms(attack_ms);
            proof {
                assert(self@.voices =~= pvs.update(
                    i as int,
                    (VoiceModel {
                        env: (EnvModel {
                            att: crate::envelope::dur_from_ms(
                                attack_ms as int,
                                pvs[i as int].env.rate,
                            ),
                            ..pvs[i as int].env
                        }),
                        ..pvs[i as int]
                    }),
                ));
            }
            i = i + 1;
        }
    }

    /// Update the decay time of every voice, in fixed-point milliseconds.
    pub fn set_decay_ms(&mut self, decay_ms: i64)
        requires
            old(self).wf(),
        ensures
            final(self).wf(),
            final(self)@.voices.len() == old(self)@.voices.len(),
            forall|j: int| 0 <= j < old(self)@.voices.len() ==> final(self)@.voices[j]
                == (VoiceModel {
                env: (EnvModel {
                    dec: crate::envelope::dur_from_ms(
                        decay_ms as int,
                        old(self)@.voices[j].env.rate,
                    ),
                    ..old(self)@.voices[j].env
                }),
                ..#[trigger] old(self)@.voices[j]
            }),
            final(self)@.counter == old(self)@.counter,
            final(self)@.rate == old(self)@.rate,
            final(self)@.max == old(self)@.max,
    {
        let ghost vs = old(self)@.voices;
        let n = self.voices.len();
        let mut i: usize = 0;
        while i < n
            invariant
                self.wf(),
                n as int == vs.len(),
                self@.voices.len() == vs.len(),
                i <= n,
                forall|j: int| 0 <= j < i as int ==> self@.voices[j] == (VoiceModel {
                    env: (EnvModel {
                        dec: crate::envelope::dur_from_ms(decay_ms as int, vs[j].env.rate),
                        ..vs[j].env
                    }),
                    ..#[trigger] vs[j]
                }),
                forall|j: int| i as int <= j < vs.len() ==> self@.voices[j] == vs[j],
                self@.counter == old(self)@.counter,
                self@.rate == old(self)@.rate,
                self@.max == old(self)@.max,
            decreases n - i,
        {
            let ghost pvs = self@.voices;
            proof {
                assert(voice_wf(self@.voices[i as int]));
            }
            let voice = &mut self.voices[i];
            voice.set_envelope_decay_ms(decay_ms);
            proof {
                assert(self@.voices =~= pvs.update(
                    i as int,
                    (VoiceModel {
                        env: (EnvModel {
                            dec: crate::envelope::dur_from_ms(
                                decay_ms as int,
                                pvs[i as int].env.rate,
                            ),
                            ..pvs[i as int].env
                        }),
                        ..pvs[i as int]
                    }),
                ));
            }
            i = i + 1;
        }
    }

    /// Update the sustain level of every voice, clamped into `[0, UNIT]`.
    pub fn set_sustain_level(&mut self, sustain_level: i64)
        requires
            old(self).wf(),
        ensures
            final(self).wf(),
            final(self)@.voices.len() == old(self)@.voices.len(),
            forall|j: int| 0 <= j < old(self)@.voices.len() ==> final(self)@.voices[j]
                == (VoiceModel {
                env: (EnvModel {
                    sus: crate::util::spec_clamp(sustain_level as int, 0, UNIT as int),
                    ..old(self)@.voices[j].env
                }),
                ..#[trigger] old(self)@.voices[j]
            }),
            final(self)@.counter == old(self)@.counter,
            final(self)@.rate == old(self)@.rate,
            final(self)@.max == old(self)@.max,
    {
        let ghost vs = old(self)@.voices;
        let n = self.voices.len();
        let mut i: usize = 0;
        while i < n
            invariant
                self.wf(),
                n as int == vs.len(),
                self@.voices.len() == vs.len(),
                i <= n,
                forall|j: int| 0 <= j < i as int ==> self@.voices[j] == (VoiceModel {
                    env: (EnvModel {
                        sus: crate::util::spec_clamp(sustain_level as int, 0, UNIT as int),
                        ..vs[j].env
                    }),
                    ..#[trigger] vs[j]
                }),
                forall|j: int| i as int <= j < vs.len() ==> self@.voices[j] == vs[j],
                self@.counter == old(self)@.counter,
                self@.rate == old(self)@.rate,
                self@.max == old(self)@.max,
            decreases n - i,
        {
            let ghost pvs = self@.voices;
            proof {
                assert(voice_wf(self@.voices[i as int]));
            }
            let voice = &mut self.voices[i];
            voice.set_envelope_sustain_level(sustain_level);
            proof {
                assert(self@.voices =~= pvs.update(
                    i as int,
                    (VoiceModel {
                        env: (EnvModel {
                            sus: crate::util::spec_clamp(sustain_level as int, 0, UNIT as int),
                            ..pvs[i as int].env
                        }),
                        ..pvs[i as int]
                    }),
                ));
            }
            i = i + 1;
        }
    }

    /// Update the release time of every voice, in fixed-point milliseconds.
    pub fn set_release_ms(&mut self, release_ms: i64)
        requires
            old(self).wf(),
        ensures
            final(self).wf(),
            final(self)@.voices.len() == old(self)@.voices.len(),
            forall|j: int| 0 <= j < old(self)@.voices.len() ==> final(self)@.voices[j]
                == (VoiceModel {
                env: (EnvModel {
                    rel: crate::envelope::dur_from_ms(
                        release_ms as int,
                        old(self)@.voices[j].env.rate,
                    ),
                    ..old(self)@.voices[j].env
                }),
                ..#[trigger] old(self)@.voices[j]
            }),
            final(self)@.counter == old(self)@.counter,
            final(self)@.rate == old(self)@.rate,
            final(self)@.max == old(self)@.max,
    {
        let ghost vs = old(self)@.voices;
        let n = self.voices.len();
        let mut i: usize = 0;
        while i < n
            invariant
                self.wf(),
                n as int == vs.len(),
                self@.voices.len() == vs.len(),
                i <= n,
                forall|j: int| 0 <= j < i as int ==> self@.voices[j] == (VoiceModel {
                    env: (EnvModel {
                        rel: crate::envelope::dur_from_ms(release_ms as int, vs[j].env.rate),
                        ..vs[j].env
                    }),
                    ..#[trigger] vs[j]
                }),
                forall|j: int| i as int <= j < vs.len() ==> self@.voices[j] == vs[j],
                self@.counter == old(self)@.counter,
                self@.rate == old(self)@.rate,
                self@.max == old(self)@.max,
            decreases n - i,
        {
            let ghost pvs = self@.voices;
            proof {
                assert(voice_wf(self@.voices[i as int]));
            }
            let voice = &mut self.voices[i];
            voice.set_envelope_release_ms(release_ms);
            proof {
                assert(self@.voices =~= pvs.update(
                    i as int,
                    (VoiceModel {
                        env: (EnvModel {
                            rel: crate::envelope::dur_from_ms(
                                release_ms as int,
                                pvs[i as int].env.rate,
                            ),
                            ..pvs[i as int].env
                        }),
                        ..pvs[i as int]
                    }),
                ));
            }
            i = i + 1;
        }
    }
}

} // verus!
