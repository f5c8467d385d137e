//! Shared fixed-point conventions and small real-time-safe helpers.
//!
//! Every continuous quantity in the engine is an `i64` in fixed-point form:
//! one whole unit (an amplitude of 1.0, one waveform cycle, one millisecond,
//! one sample of phase position) is [`UNIT`] ticks. Velocities, sustain
//! levels and envelope outputs live in `[0, UNIT]`; oscillator samples live
//! in `[-UNIT, UNIT]`; frequencies are given in micro-hertz.

use vstd::prelude::*;

verus! {

/// Number of fixed-point ticks in one whole unit.
pub const UNIT: i64 = 1_000_000;

/// Upper bound on an envelope phase duration, in fixed-point samples
/// (one billion whole samples; several hours of audio at studio rates).
/// Durations are clamped here so that timing arithmetic stays in range.
pub const DUR_MAX: i64 = 1_000_000_000_000_000;

/// Frequencies handed to an oscillator are clamped to this magnitude,
/// in micro-hertz (one megahertz), so phase arithmetic stays in range.
pub const FREQ_LIMIT: i64 = 1_000_000_000_000;

/// Largest voice-pool capacity, chosen so that a mixed sample of a full
/// pool (capacity times `UNIT`) stays comfortably within `i64`.
pub const MAX_POLYPHONY: usize = 4096;

/// MIDI status byte for a note-off message.
pub const MIDI_NOTE_OFF: u8 = 0x80;

/// MIDI status byte for a note-on message.
pub const MIDI_NOTE_ON: u8 = 0x90;

/// MIDI status byte for a control-change message.
pub const MIDI_CC: u8 = 0xB0;

/// Lowest MIDI note number.
pub const MIDI_MIN: u8 = 0;

/// Highest MIDI note number.
pub const MIDI_MAX: u8 = 127;

/// What [`clamp`] returns: `value` pulled into the interval `[min, max]`.
pub open spec fn spec_clamp(value: int, min: int, max: int) -> int {
    if value < min {
        min
    } else if value > max {
        max
    } else {
        value
    }
}

/// Clamp a value between min and max.
pub fn clamp(value: i64, min: i64, max: i64) -> (r: i64)
    ensures
        r == spec_clamp(value as int, min as int, max as int),
{
    if value < min {
        min
    } else if value > max {
        max
    } else {
        value
    }
}

/// Frequency in micro-hertz of the chromatic pitch `i` (0 to 11) in the
/// lowest MIDI octave, under equal temperament with A4 at 440 Hz. Pitch 9
/// (the A) is exactly 13.75 Hz; the others are rounded to the nearest
/// micro-hertz.
pub open spec fn spec_semitone_uhz(i: int) -> int {
    if i == 0 {
        8_175_799
    } else if i == 1 {
        8_661_957
    } else if i == 2 {
        9_177_024
    } else if i == 3 {
        9_722_718
    } else if i == 4 {
        10_300_861
    } else if i == 5 {
        10_913_382
    } else if i == 6 {
        11_562_326
    } else if i == 7 {
        12_249_857
    } else if i == 8 {
        12_978_272
    } else if i == 9 {
        13_750_000
    } else if i == 10 {
        14_567_618
    } else {
        15_433_853
    }
}

/// What [`midi_note_to_freq`] returns: the equal-temperament frequency of a
/// MIDI note in micro-hertz, as the base pitch of its chromatic class scaled
/// up by one power of two per octave. Exact doubling per octave means A4
/// (note 69) maps to exactly 440 Hz.
pub open spec fn spec_midi_freq_uhz(note: int) -> int {
    spec_semitone_uhz(note % 12) * vstd::arithmetic::power2::pow2((note / 12) as nat)
}

proof fn lemma_semitone_uhz_bounds(i: int)
    ensures
        8_175_799 <= spec_semitone_uhz(i) <= 15_433_853,
{
}

proof fn lemma_pow2_bounds(n: nat)
    requires
        n <= 21,
    ensures
        1 <= vstd::arithmetic::power2::pow2(n) <= 0x200000,
{
    vstd::arithmetic::power2::lemma2_to64();
    if n < 21 {
        vstd::arithmetic::power2::lemma_pow2_strictly_increases(n, 21);
    }
    vstd::arithmetic::power2::lemma_pow2_pos(n);
}

/// Convert MIDI note number to frequency in micro-hertz.
/// Uses equal temperament tuning with A4 = 440 Hz.
pub fn midi_note_to_freq(note: u8) -> (r: i64)
    ensures
        r == spec_midi_freq_uhz(note as int),
        0 < r,
{
    let semitone: u8 = note % 12;
    let octave: u8 = note / 12;
    let base: i64 = if semitone == 0 {
        8_175_799
    } else if semitone == 1 {
        8_661_957
    } else if semitone == 2 {
        9_177_024
    } else if semitone == 3 {
        9_722_718
    } else if semitone == 4 {
        10_300_861
    } else if semitone == 5 {
        10_913_382
    } else if semitone == 6 {
        11_562_326
    } else if semitone == 7 {
        12_249_857
    } else if semitone == 8 {
        12_978_272
    } else if semitone == 9 {
        13_750_000
    } else if semitone == 10 {
        14_567_618
    } else {
        15_433_853
    };
    assert(base == spec_semitone_uhz(note as int % 12));
    let mut scale: i64 = 1;
    let mut i: u8 = 0;
    proof {
        vstd::arithmetic::power2::lemma2_to64();
    }
    while i < octave
        invariant
            i <= octave,
            octave <= 21,
            scale == vstd::arithmetic::power2::pow2(i as nat),
            scale <= 0x200000,
        decreases octave - i,
    {
        proof {
            lemma_pow2_bounds(i as nat + 1);
            vstd::arithmetic::power2::lemma_pow2_unfold(i as nat + 1);
        }
        scale = scale * 2;
        i = i + 1;
    }
    proof {
        lemma_semitone_uhz_bounds(note as int % 12);
        lemma_pow2_bounds(octave as nat);
        vstd::arithmetic::mul::lemma_mul_upper_bound(
            base as int,
            15_433_853,
            scale as int,
            0x200000,
        );
        vstd::arithmetic::mul::lemma_mul_increases(scale as int, base as int);
    }
    base * scale
}

/// `floor(a * b / d)` on non-negative operands, computed without overflow
/// through a 128-bit intermediate product.
pub(crate) fn mul_div(a: i64, b: i64, d: i64) -> (r: i64)
    requires
        0 <= a,
        0 <= b,
        0 < d,
        a as int * b as int / d as int <= i64::MAX,
    ensures
        r == a as int * b as int / d as int,
{
    proof {
        vstd::arithmetic::mul::lemma_mul_nonnegative(a as int, b as int);
        vstd::arithmetic::div_mod::lemma_div_pos_is_pos(a as int * b as int, d as int);
        vstd::arithmetic::mul::lemma_mul_upper_bound(
            a as int,
            i64::MAX as int,
            b as int,
            i64::MAX as int,
        );
    }
    (((a as u128) * (b as u128)) / (d as u128)) as i64
}

/// With `0 <= a <= d` the ratio `a / d` is at most one, so scaling any
/// non-negative `b` by it stays within `[0, b]`.
pub proof fn lemma_scale_within(a: int, b: int, d: int)
    requires
        0 <= a <= d,
        0 < d,
        0 <= b,
    ensures
        0 <= a * b / d <= b,
{
    vstd::arithmetic::mul::lemma_mul_nonnegative(a, b);
    vstd::arithmetic::div_mod::lemma_div_pos_is_pos(a * b, d);
    vstd::arithmetic::mul::lemma_mul_inequality(a, d, b);
    vstd::arithmetic::mul::lemma_mul_is_commutative(d, b);
    vstd::arithmetic::div_mod::lemma_multiply_divide_le(a * b, d, b);
}

/// Scaling by a ratio is monotone in the numerator: growing `a` cannot
/// shrink `a * b / d`.
pub proof fn lemma_scale_monotone(a1: int, a2: int, b: int, d: int)
    requires
        0 <= a1 <= a2,
        0 <= b,
        0 < d,
    ensures
        a1 * b / d <= a2 * b / d,
{
    vstd::arithmetic::mul::lemma_mul_inequality(a1, a2, b);
    vstd::arithmetic::div_mod::lemma_div_is_ordered(a1 * b, a2 * b, d);
}

} // verus!
