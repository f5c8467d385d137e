//! Tests for the ADSR envelope: phase timing, instant phases, retrigger and
//! state transitions. Amplitudes are fixed-point with `UNIT` ticks to 1.0.

use naughty_and_tender::envelope::{ADSREnvelope, EnvelopeState};
use naughty_and_tender::util::UNIT;

const SAMPLE_RATE: u32 = 44100;

/// A fixed-point amplitude as a float in [0, 1].
fn amp(x: i64) -> f32 {
    x as f32 / UNIT as f32
}

#[test]
fn test_envelope_creation() {
    let _env = ADSREnvelope::new(SAMPLE_RATE);
}

#[test]
fn test_attack_phase_timing() {
    let mut env = ADSREnvelope::new(SAMPLE_RATE);

    // 100ms attack time
    env.set_attack_ms(100 * UNIT);
    env.set_decay_ms(0);
    env.set_sustain_level(UNIT);
    env.set_release_ms(0);

    env.note_on(UNIT); // Full velocity

    // Samples for 100ms
    let attack_samples = (SAMPLE_RATE as f32 * 0.1) as usize; // 4410 samples

    let mut values = Vec::new();
    for _ in 0..attack_samples {
        values.push(env.process());
    }

    assert!(
        amp(values[0]) < 0.1,
        "Attack should start near 0, got {}",
        amp(values[0])
    );

    let last_value = amp(values[values.len() - 1]);
    assert!(
        (last_value - 1.0).abs() < 0.05,
        "Attack should reach ~1.0 after 100ms, got {}",
        last_value
    );

    for window in values.windows(2) {
        assert!(
            window[1] >= window[0],
            "Attack should be monotonically increasing"
        );
    }
}

#[test]
fn test_attack_phase_zero_time() {
    let mut env = ADSREnvelope::new(SAMPLE_RATE);

    env.set_attack_ms(0);
    env.set_decay_ms(0);
    env.set_sustain_level(UNIT);
    env.set_release_ms(0);

    env.note_on(UNIT);

    let value = amp(env.process());
    assert!(
        (value - 1.0).abs() < 0.01,
        "Zero attack should immediately produce 1.0, got {}",
        value
    );
}

#[test]
fn test_decay_phase_timing() {
    let mut env = ADSREnvelope::new(SAMPLE_RATE);

    env.set_attack_ms(0); // Instant attack
    env.set_decay_ms(100 * UNIT); // 100ms decay
    env.set_sustain_level(UNIT / 2); // 50% sustain
    env.set_release_ms(0);

    env.note_on(UNIT);

    // Skip attack (instant)
    env.process();

    let decay_samples = (SAMPLE_RATE as f32 * 0.1) as usize;
    let mut values = Vec::new();
    for _ in 0..decay_samples {
        values.push(env.process());
    }

    assert!(
        (amp(values[0]) - 1.0).abs() < 0.1,
        "Decay should start near 1.0, got {}",
        amp(values[0])
    );

    let last_value = amp(values[values.len() - 1]);
    assert!(
        (last_value - 0.5).abs() < 0.05,
        "Decay should reach sustain level 0.5, got {}",
        last_value
    );

    for window in values.windows(2) {
        assert!(
            window[1] <= window[0],
            "Decay should be monotonically decreasing"
        );
    }
}

#[test]
fn test_sustain_phase_holds_level() {
    let mut env = ADSREnvelope::new(SAMPLE_RATE);

    env.set_attack_ms(0);
    env.set_decay_ms(0);
    env.set_sustain_level(700_000); // 70% sustain
    env.set_release_ms(0);

    env.note_on(UNIT);

    // Skip to sustain phase
    env.process();

    for _ in 0..10000 {
        let value = amp(env.process());
        assert!(
            (value - 0.7).abs() < 0.01,
            "Sustain should hold at 0.7, got {}",
            value
        );
    }
}

#[test]
fn test_sustain_level_100_percent() {
    let mut env = ADSREnvelope::new(SAMPLE_RATE);

    env.set_attack_ms(10 * UNIT);
    env.set_decay_ms(10 * UNIT);
    env.set_sustain_level(UNIT); // 100% - no decay
    env.set_release_ms(0);

    env.note_on(UNIT);

    for _ in 0..(SAMPLE_RATE as f32 * 0.03) as usize {
        env.process();
    }

    let value = amp(env.process());
    assert!(
        (value - 1.0).abs() < 0.05,
        "100% sustain should maintain 1.0, got {}",
        value
    );
}

#[test]
fn test_release_phase_timing() {
    let mut env = ADSREnvelope::new(SAMPLE_RATE);

    env.set_attack_ms(0);
    env.set_decay_ms(0);
    env.set_sustain_level(800_000);
    env.set_release_ms(100 * UNIT); // 100ms release

    env.note_on(UNIT);

    // Process to sustain
    for _ in 0..10 {
        env.process();
    }

    env.note_off();

    let release_samples = (SAMPLE_RATE as f32 * 0.1) as usize;
    let mut values = Vec::new();
    for _ in 0..release_samples {
        values.push(env.process());
    }

    assert!(
        (amp(values[0]) - 0.8).abs() < 0.1,
        "Release should start near sustain level 0.8, got {}",
        amp(values[0])
    );

    let last_value = amp(values[values.len() - 1]);
    assert!(
        last_value < 0.05,
        "Release should reach near 0, got {}",
        last_value
    );

    for window in values.windows(2) {
        assert!(
            window[1] <= window[0],
            "Release should be monotonically decreasing"
        );
    }
}

#[test]
fn test_release_from_attack_phase() {
    let mut env = ADSREnvelope::new(SAMPLE_RATE);

    env.set_attack_ms(100 * UNIT);
    env.set_decay_ms(0);
    env.set_sustain_level(UNIT);
    env.set_release_ms(50 * UNIT);

    env.note_on(UNIT);

    // Process halfway through attack
    for _ in 0..(SAMPLE_RATE as f32 * 0.05) as usize {
        env.process();
    }

    let level_before_release = env.process();

    // Trigger release mid-attack
    env.note_off();

    let values: Vec<i64> = (0..3000).map(|_| env.process()).collect();

    assert!(
        values[0] <= level_before_release,
        "Release should start from current level"
    );

    assert!(
        amp(values[values.len() - 1]) < 0.1,
        "Release should reach near 0"
    );
}

#[test]
fn test_instant_release() {
    let mut env = ADSREnvelope::new(SAMPLE_RATE);

    env.set_attack_ms(0);
    env.set_decay_ms(0);
    env.set_sustain_level(UNIT);
    env.set_release_ms(0); // Instant release

    env.note_on(UNIT);
    env.process(); // Reach sustain

    env.note_off();

    let value = amp(env.process());
    assert!(
        value < 0.01,
        "Instant release should immediately produce ~0, got {}",
        value
    );
}

#[test]
fn test_note_off_triggers_release() {
    let mut env = ADSREnvelope::new(SAMPLE_RATE);

    env.set_attack_ms(0);
    env.set_decay_ms(0);
    env.set_sustain_level(900_000);
    env.set_release_ms(100 * UNIT);

    env.note_on(UNIT);

    // Process to sustain
    for _ in 0..100 {
        let value = amp(env.process());
        assert!((value - 0.9).abs() < 0.05, "Should be in sustain phase");
    }

    env.note_off();

    let value1 = env.process();
    let value2 = env.process();
    let value3 = env.process();

    assert!(value2 < value1, "Should be releasing (decreasing)");
    assert!(value3 < value2, "Should continue releasing");
}

#[test]
fn test_envelope_velocity_sensitivity() {
    let mut env1 = ADSREnvelope::new(SAMPLE_RATE);
    let mut env2 = ADSREnvelope::new(SAMPLE_RATE);

    env1.set_attack_ms(0);
    env1.set_decay_ms(0);
    env1.set_sustain_level(UNIT);
    env1.set_release_ms(0);

    env2.set_attack_ms(0);
    env2.set_decay_ms(0);
    env2.set_sustain_level(UNIT);
    env2.set_release_ms(0);

    env1.note_on(UNIT); // Full velocity
    env2.note_on(UNIT / 2); // Half velocity

    let value1 = env1.process();
    let value2 = env2.process();

    assert!(
        value1 > value2,
        "Higher velocity should produce higher output: {} vs {}",
        value1,
        value2
    );

    assert!(
        (amp(value2) - 0.5).abs() < 0.1,
        "Half velocity should produce ~0.5, got {}",
        amp(value2)
    );
}

#[test]
fn test_envelope_is_active() {
    let mut env = ADSREnvelope::new(SAMPLE_RATE);

    env.set_attack_ms(0);
    env.set_decay_ms(0);
    env.set_sustain_level(UNIT);
    env.set_release_ms(10 * UNIT);

    assert!(!env.is_active(), "Envelope should start idle");

    env.note_on(UNIT);
    assert!(env.is_active(), "Envelope should be active after note on");

    for _ in 0..100 {
        env.process();
    }
    assert!(env.is_active(), "Envelope should be active during sustain");

    env.note_off();
    assert!(env.is_active(), "Envelope should be active during release");

    for _ in 0..(SAMPLE_RATE as f32 * 0.02) as usize {
        env.process();
    }

    assert!(!env.is_active(), "Envelope should be idle after release");
}

#[test]
fn test_envelope_reset() {
    let mut env = ADSREnvelope::new(SAMPLE_RATE);

    env.set_attack_ms(100 * UNIT);
    env.set_decay_ms(0);
    env.set_sustain_level(UNIT);
    env.set_release_ms(0);

    env.note_on(UNIT);

    for _ in 0..1000 {
        env.process();
    }

    env.reset();

    assert!(!env.is_active(), "Should be idle after reset");
    let value = amp(env.process());
    assert!(value < 0.01, "Should output ~0 after reset, got {}", value);
}

#[test]
fn test_sample_accurate_timing() {
    let mut env1 = ADSREnvelope::new(SAMPLE_RATE);
    let mut env2 = ADSREnvelope::new(SAMPLE_RATE);

    let attack_time = 44_100_000; // 44.1 ms: exactly 1944.81 samples at 44100 Hz
    env1.set_attack_ms(attack_time);
    env2.set_attack_ms(attack_time);

    env1.set_decay_ms(0);
    env1.set_sustain_level(UNIT);
    env1.set_release_ms(0);

    env2.set_decay_ms(0);
    env2.set_sustain_level(UNIT);
    env2.set_release_ms(0);

    env1.note_on(UNIT);
    env2.note_on(UNIT);

    // Both should produce identical values sample by sample
    for _ in 0..2000 {
        let v1 = env1.process();
        let v2 = env2.process();
        assert!(
            (amp(v1) - amp(v2)).abs() < 0.0001,
            "Envelopes should be sample-accurate"
        );
    }
}

#[test]
fn test_envelope_retrigger() {
    let mut env = ADSREnvelope::new(SAMPLE_RATE);

    env.set_attack_ms(100 * UNIT);
    env.set_decay_ms(0);
    env.set_sustain_level(UNIT);
    env.set_release_ms(0);

    env.note_on(UNIT);

    // Process halfway through attack
    for _ in 0..(SAMPLE_RATE as f32 * 0.05) as usize {
        env.process();
    }

    let mid_attack_value = env.process();
    assert!(
        amp(mid_attack_value) > 0.3 && amp(mid_attack_value) < 0.7,
        "Should be mid-attack"
    );

    // Retrigger
    env.note_on(UNIT);

    let retriggered_value = env.process();
    assert!(
        retriggered_value < mid_attack_value,
        "Retrigger should restart attack, got {} (was {})",
        retriggered_value,
        mid_attack_value
    );
}

#[test]
fn test_no_allocations_in_process() {
    // Real-time safety: process() is a plain &mut self -> i64 call with no
    // allocation in the hot path; run it long enough to notice trouble.
    let mut env = ADSREnvelope::new(SAMPLE_RATE);
    env.set_attack_ms(10 * UNIT);
    env.set_decay_ms(10 * UNIT);
    env.set_sustain_level(UNIT / 2);
    env.set_release_ms(10 * UNIT);

    env.note_on(UNIT);

    for _ in 0..100000 {
        let _value = env.process();
    }
}

#[test]
fn test_envelope_state_transitions() {
    let mut env = ADSREnvelope::new(SAMPLE_RATE);

    env.set_attack_ms(10 * UNIT);
    env.set_decay_ms(10 * UNIT);
    env.set_sustain_level(UNIT / 2);
    env.set_release_ms(10 * UNIT);

    assert_eq!(env.get_state(), EnvelopeState::Idle);

    env.note_on(UNIT);
    assert_eq!(env.get_state(), EnvelopeState::Attack);

    for _ in 0..(SAMPLE_RATE as f32 * 0.015) as usize {
        env.process();
    }

    assert_eq!(env.get_state(), EnvelopeState::Decay);

    for _ in 0..(SAMPLE_RATE as f32 * 0.015) as usize {
        env.process();
    }

    assert_eq!(env.get_state(), EnvelopeState::Sustain);

    env.note_off();
    assert_eq!(env.get_state(), EnvelopeState::Release);

    for _ in 0..(SAMPLE_RATE as f32 * 0.015) as usize {
        env.process();
    }

    assert_eq!(env.get_state(), EnvelopeState::Idle);
}
