//! Waveform oscillators with a wrapped phase accumulator.
//!
//! An oscillator holds one phase value in `[0, UNIT)`, a fixed-point fraction
//! of a waveform cycle, and a sample rate fixed at construction. Each process
//! call evaluates the selected waveform at the current phase and then
//! advances the phase by `frequency / sample_rate` of a cycle, wrapping back
//! into `[0, UNIT)` in either direction, so negative frequencies run the
//! cycle backwards and the phase can never drift out of range.
//!
//! The waveforms are naive (not band-limited): the sawtooth is a linear
//! ramp, the square switches at half a cycle, the triangle is a tent, and
//! the sine is a piecewise parabola with the exact zeros, sign and peaks of
//! a sine cycle, so every sample is an exact integer formula in `[-UNIT,
//! UNIT]`.

use vstd::prelude::*;

use crate::util::{clamp, FREQ_LIMIT, UNIT};

verus! {

/// Half of a waveform cycle, in phase ticks.
pub const HALF_CYCLE: i64 = 500_000;

/// Waveform types available for oscillators.
#[derive(Clone, Copy, Debug, PartialEq, Eq, Structural)]
pub enum WaveformType {
    Sine,
    Sawtooth,
    Square,
    Triangle,
}

/// Mathematical model of an oscillator: its phase in `[0, UNIT)` and its
/// sample rate in hertz.
pub ghost struct OscModel {
    /// Phase accumulator, a fraction of one cycle in `[0, UNIT)`.
    pub phase: int,
    /// Sample rate in hertz, at least one.
    pub rate: int,
}

/// Well-formedness of an oscillator model.
pub open spec fn osc_wf(m: OscModel) -> bool {
    &&& 0 <= m.phase < UNIT
    &&& 1 <= m.rate
}

/// A phase folded back into `[0, UNIT)` by repeatedly subtracting a whole
/// cycle while it is too large and adding one while it is negative.
pub open spec fn wrap_phase(p: int) -> int
    decreases (if p < 0 { UNIT - p } else { p }),
{
    if p >= UNIT {
        wrap_phase(p - UNIT)
    } else if p < 0 {
        wrap_phase(p + UNIT)
    } else {
        p
    }
}

/// The phase advance of one sample: the frequency (clamped to a sane
/// magnitude) divided by the sample rate, in cycle ticks, rounded toward
/// zero so that negative frequencies move the phase backwards symmetrically.
pub open spec fn phase_inc(freq: int, rate: int) -> int {
    let f = crate::util::spec_clamp(freq, -FREQ_LIMIT as int, FREQ_LIMIT as int);
    if f >= 0 {
        f / rate
    } else {
        -((-f) / rate)
    }
}

/// The oscillator model after one process call at the given frequency in
/// micro-hertz: phase advanced by one increment and wrapped.
pub open spec fn osc_advance(m: OscModel, freq: int) -> OscModel {
    OscModel { phase: wrap_phase(m.phase + phase_inc(freq, m.rate)), ..m }
}

/// The sine waveform at a phase: a piecewise parabola with the zeros, sign
/// and unit peaks of `sin` over one cycle, rising over the first half and
/// mirrored below zero over the second.
pub open spec fn sine_sample(p: int) -> int {
    if p < HALF_CYCLE {
        16 * p * (HALF_CYCLE - p) / (UNIT as int)
    } else {
        -(16 * (p - HALF_CYCLE) * (UNIT - p) / (UNIT as int))
    }
}

/// The sawtooth waveform at a phase: a linear ramp from `-UNIT` up to
/// `UNIT`, wrapping at the end of the cycle.
pub open spec fn sawtooth_sample(p: int) -> int {
    2 * p - UNIT
}

/// The square waveform at a phase: `-UNIT` over the first half of the
/// cycle, `UNIT` over the second.
pub open spec fn square_sample(p: int) -> int {
    if p < HALF_CYCLE {
        -UNIT as int
    } else {
        UNIT as int
    }
}

/// The triangle waveform at a phase: rising from `-UNIT` to `UNIT` over the
/// first half of the cycle, falling back over the second.
pub open spec fn triangle_sample(p: int) -> int {
    if p < HALF_CYCLE {
        4 * p - UNIT
    } else {
        3 * (UNIT as int) - 4 * p
    }
}

/// A wrapped phase lies in `[0, UNIT)`.
pub proof fn lemma_wrap_phase_range(p: int)
    ensures
        0 <= wrap_phase(p) < UNIT,
    decreases (if p < 0 { UNIT - p } else { p }),
{
    if p >= UNIT {
        lemma_wrap_phase_range(p - UNIT);
    } else if p < 0 {
        lemma_wrap_phase_range(p + UNIT);
    }
}

/// Law: every waveform is bounded by one unit of amplitude at every phase
/// of the cycle, so oscillator output can never leave `[-UNIT, UNIT]`.
pub proof fn lemma_wave_bounds(p: int)
    requires
        0 <= p < UNIT,
    ensures
        -UNIT <= sine_sample(p) <= UNIT,
        -UNIT <= sawtooth_sample(p) < UNIT,
        -UNIT <= square_sample(p) <= UNIT,
        -UNIT <= triangle_sample(p) <= UNIT,
{
    if p < HALF_CYCLE {
        assert(16 * p * (HALF_CYCLE - p) <= UNIT * (UNIT as int)) by (nonlinear_arith)
            requires
                0 <= p < HALF_CYCLE,
                HALF_CYCLE == 500_000,
                UNIT == 1_000_000,
        ;
        vstd::arithmetic::mul::lemma_mul_nonnegative(16 * p, HALF_CYCLE - p);
        vstd::arithmetic::div_mod::lemma_div_pos_is_pos(16 * p * (HALF_CYCLE - p), UNIT as int);
        vstd::arithmetic::div_mod::lemma_multiply_divide_le(
            16 * p * (HALF_CYCLE - p),
            UNIT as int,
            UNIT as int,
        );
    } else {
        assert(16 * (p - HALF_CYCLE) * (UNIT - p) <= UNIT * (UNIT as int)) by (nonlinear_arith)
            requires
                HALF_CYCLE <= p < UNIT,
                HALF_CYCLE == 500_000,
                UNIT == 1_000_000,
        ;
        vstd::arithmetic::mul::lemma_mul_nonnegative(16 * (p - HALF_CYCLE), UNIT - p);
        vstd::arithmetic::div_mod::lemma_div_pos_is_pos(
            16 * (p - HALF_CYCLE) * (UNIT - p),
            UNIT as int,
        );
        vstd::arithmetic::div_mod::lemma_multiply_divide_le(
            16 * (p - HALF_CYCLE) * (UNIT - p),
            UNIT as int,
            UNIT as int,
        );
    }
}

/// Multi-waveform oscillator with a wrapped fixed-point phase accumulator.
///
/// All state is pre-allocated at construction; the process methods allocate
/// nothing and never panic, for any frequency of either sign.
pub struct Oscillator {
    /// Phase accumulator, `0` to `UNIT` exclusive.
    phase: i64,
    /// Sample rate in hertz.
    sample_rate: u32,
}

impl View for Oscillator {
    type V = OscModel;

    closed spec fn view(&self) -> OscModel {
        OscModel { phase: self.phase as int, rate: self.sample_rate as int }
    }
}

impl Oscillator {
    /// The oscillator's representation invariant.
    pub open spec fn wf(&self) -> bool {
        osc_wf(self@)
    }

    /// Create a new oscillator at the given sample rate, starting at phase
    /// zero.
    pub fn new(sample_rate: u32) -> (o: Oscillator)
        requires
            sample_rate >= 1,
        ensures
            o.wf(),
            o@.phase == 0,
            o@.rate == sample_rate as int,
    {
        Oscillator { phase: 0, sample_rate }
    }

    /// Reset phase to zero (for synced oscillators or voice restarts), so
    /// retriggered notes are phase-deterministic.
    pub fn reset(&mut self)
        requires
            old(self).wf(),
        ensures
            final(self).wf(),
            final(self)@ == (OscModel { phase: 0, ..old(self)@ }),
    {
        self.phase = 0;
    }

    /// Advance the phase accumulator by `frequency / sample_rate` of a
    /// cycle and wrap it back into `[0, UNIT)` from either side.
    fn advance_phase(&mut self, frequency: i64)
        requires
            old(self).wf(),
        ensures
            final(self).wf(),
            final(self)@ == osc_advance(old(self)@, frequency as int),
    {
        let f = clamp(frequency, -FREQ_LIMIT, FREQ_LIMIT);
        let rate = self.sample_rate as u64;
        let inc: i64 = if f >= 0 {
            ((f as u64) / rate) as i64
        } else {
            -((((-f) as u64) / rate) as i64)
        };
        assert(inc == phase_inc(frequency as int, self@.rate));
        let ghost start = self@.phase + inc as int;
        let mut p: i64 = self.phase + inc;
        while p >= UNIT
            invariant
                wrap_phase(p as int) == wrap_phase(start),
                -FREQ_LIMIT <= p,
            decreases p,
        {
            p = p - UNIT;
        }
        while p < 0
            invariant
                wrap_phase(p as int) == wrap_phase(start),
                p < UNIT,
            decreases UNIT - p,
        {
            p = p + UNIT;
        }
        self.phase = p;
    }

    /// Process one sample of the sine waveform at the given frequency in
    /// micro-hertz: the sample at the current phase, then the phase
    /// advances.
    pub fn process_sine(&mut self, frequency: i64) -> (r: i64)
        requires
            old(self).wf(),
        ensures
            final(self).wf(),
            final(self)@ == osc_advance(old(self)@, frequency as int),
            r == sine_sample(old(self)@.phase),
            -UNIT <= r <= UNIT,
    {
        proof {
            lemma_wave_bounds(self@.phase);
        }
        let p = self.phase;
        let out: i64 = if p < HALF_CYCLE {
            proof {
                vstd::arithmetic::mul::lemma_mul_upper_bound(
                    16 * p as int,
                    8_000_000,
                    HALF_CYCLE - p as int,
                    500_000,
                );
            }
            ((16 * (p as u64) * ((HALF_CYCLE - p) as u64)) / (UNIT as u64)) as i64
        } else {
            proof {
                vstd::arithmetic::mul::lemma_mul_upper_bound(
                    16 * (p - HALF_CYCLE) as int,
                    8_000_000,
                    UNIT - p as int,
                    1_000_000,
                );
            }
            -(((16 * ((p - HALF_CYCLE) as u64) * ((UNIT - p) as u64)) / (UNIT as u64)) as i64)
        };
        self.advance_phase(frequency);
        out
    }

    /// Process one sample of the sawtooth waveform: a linear ramp from
    /// `-UNIT` to `UNIT` over the cycle.
    pub fn process_sawtooth(&mut self, frequency: i64) -> (r: i64)
        requires
            old(self).wf(),
        ensures
            final(self).wf(),
            final(self)@ == osc_advance(old(self)@, frequency as int),
            r == sawtooth_sample(old(self)@.phase),
            -UNIT <= r < UNIT,
    {
        let out = 2 * self.phase - UNIT;
        self.advance_phase(frequency);
        out
    }

    /// Process one sample of the square waveform: `-UNIT` for the first
    /// half of the cycle, `UNIT` for the second (a 50% duty cycle).
    pub fn process_square(&mut self, frequency: i64) -> (r: i64)
        requires
            old(self).wf(),
        ensures
            final(self).wf(),
            final(self)@ == osc_advance(old(self)@, frequency as int),
            r == square_sample(old(self)@.phase),
            -UNIT <= r <= UNIT,
    {
        let out: i64 = if self.phase < HALF_CYCLE {
            -UNIT
        } else {
            UNIT
        };
        self.advance_phase(frequency);
        out
    }

    /// Process one sample of the triangle waveform: a tent rising over the
    /// first half of the cycle and falling over the second.
    pub fn process_triangle(&mut self, frequency: i64) -> (r: i64)
        requires
            old(self).wf(),
        ensures
            final(self).wf(),
            final(self)@ == osc_advance(old(self)@, frequency as int),
            r == triangle_sample(old(self)@.phase),
            -UNIT <= r <= UNIT,
    {
        let out: i64 = if self.phase < HALF_CYCLE {
            4 * self.phase - UNIT
        } else {
            3 * UNIT - 4 * self.phase
        };
        self.advance_phase(frequency);
        out
    }
}

/// The waveform named by a host-side integer selector: 0 is sine, 1
/// sawtooth, 2 square, 3 triangle, and any unrecognized value falls back to
/// sine.
pub open spec fn spec_waveform_from_index(index: int) -> WaveformType {
    if index == 1 {
        WaveformType::Sawtooth
    } else if index == 2 {
        WaveformType::Square
    } else if index == 3 {
        WaveformType::Triangle
    } else {
        WaveformType::Sine
    }
}

/// Map an integer waveform selector to a waveform, falling back to sine on
/// unrecognized values.
pub fn waveform_from_index(index: i32) -> (w: WaveformType)
    ensures
        w == spec_waveform_from_index(index as int),
{
    if index == 1 {
        WaveformType::Sawtooth
    } else if index == 2 {
        WaveformType::Square
    } else if index == 3 {
        WaveformType::Triangle
    } else {
        WaveformType::Sine
    }
}

} // verus!
