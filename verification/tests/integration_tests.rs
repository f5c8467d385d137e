//! Integration tests: oscillators, envelopes and voices working together to
//! produce synthesizer behaviour end to end.

use naughty_and_tender::oscillators::WaveformType;
use naughty_and_tender::util::UNIT;
use naughty_and_tender::voice::{Voice, VoiceManager};

const SAMPLE_RATE: u32 = 44100;

/// A fixed-point sample as a float in [-1, 1].
fn amp(x: i64) -> f32 {
    x as f32 / UNIT as f32
}

fn calculate_rms(samples: &[i64]) -> f32 {
    let sum_squares: f32 = samples.iter().map(|&s| amp(s) * amp(s)).sum();
    (sum_squares / samples.len() as f32).sqrt()
}

fn count_zero_crossings(samples: &[i64]) -> usize {
    samples
        .windows(2)
        .filter(|w| (w[0] < 0 && w[1] >= 0) || (w[0] >= 0 && w[1] < 0))
        .count()
}

#[test]
fn test_midi_note_on_produces_audio() {
    let mut vm = VoiceManager::new(SAMPLE_RATE, 16);

    vm.note_on(60, UNIT); // Middle C

    let mut buffer = vec![0i64; 256];
    vm.process(&mut buffer);

    let has_audio = buffer.iter().any(|&s| amp(s).abs() > 0.01);
    assert!(has_audio, "MIDI note on should produce audio");
}

#[test]
fn test_midi_note_off_triggers_release() {
    let mut vm = VoiceManager::new(SAMPLE_RATE, 16);

    vm.note_on(60, UNIT);

    // Let it sustain
    for _ in 0..10 {
        let mut buffer = vec![0i64; 128];
        vm.process(&mut buffer);
    }

    vm.note_off(60);

    // Collect audio during release
    let mut release_samples = Vec::new();
    for _ in 0..50 {
        let mut buffer = vec![0i64; 128];
        vm.process(&mut buffer);
        release_samples.extend_from_slice(&buffer);
    }

    let first_half_rms = calculate_rms(&release_samples[0..1000]);
    let second_half_rms = calculate_rms(&release_samples[release_samples.len() - 1000..]);

    assert!(
        first_half_rms > second_half_rms,
        "Audio should decay during release: {} vs {}",
        first_half_rms,
        second_half_rms
    );
}

#[test]
fn test_polyphony_produces_mixed_output() {
    let mut vm = VoiceManager::new(SAMPLE_RATE, 16);

    // Play a single note
    vm.note_on(60, UNIT / 2);

    // Process past the attack phase to reach stable amplitude
    let mut warmup = vec![0i64; 1024];
    vm.process(&mut warmup);

    let mut buffer_single = vec![0i64; 512];
    vm.process(&mut buffer_single);

    let rms_single = calculate_rms(&buffer_single);

    // Reset and play a chord
    vm.reset();
    vm.note_on(60, UNIT / 2); // C
    vm.note_on(64, UNIT / 2); // E
    vm.note_on(67, UNIT / 2); // G

    let mut warmup_chord = vec![0i64; 1024];
    vm.process(&mut warmup_chord);

    let mut buffer_chord = vec![0i64; 512];
    vm.process(&mut buffer_chord);

    let rms_chord = calculate_rms(&buffer_chord);

    assert!(
        rms_chord > rms_single * 1.05,
        "Chord should be louder than single note: {} vs {}",
        rms_chord,
        rms_single
    );
}

#[test]
fn test_different_notes_produce_different_frequencies() {
    let mut vm1 = VoiceManager::new(SAMPLE_RATE, 16);
    let mut vm2 = VoiceManager::new(SAMPLE_RATE, 16);

    // Play C4
    vm1.note_on(60, UNIT);
    let mut samples_c4 = vec![0i64; 44100];
    vm1.process(&mut samples_c4);

    // Play C5 (an octave higher)
    vm2.note_on(72, UNIT);
    let mut samples_c5 = vec![0i64; 44100];
    vm2.process(&mut samples_c5);

    let crossings_c4 = count_zero_crossings(&samples_c4);
    let crossings_c5 = count_zero_crossings(&samples_c5);

    let ratio = crossings_c5 as f32 / crossings_c4 as f32;
    assert!(
        (ratio - 2.0).abs() < 0.1,
        "C5 should be octave above C4, ratio: {}",
        ratio
    );
}

#[test]
fn test_velocity_affects_output_amplitude() {
    let mut vm_loud = VoiceManager::new(SAMPLE_RATE, 16);
    let mut vm_soft = VoiceManager::new(SAMPLE_RATE, 16);

    vm_loud.note_on(60, UNIT); // Full velocity
    vm_soft.note_on(60, UNIT / 2); // Half velocity

    // Process past the attack phase
    for _ in 0..10 {
        let mut buf1 = vec![0i64; 128];
        let mut buf2 = vec![0i64; 128];
        vm_loud.process(&mut buf1);
        vm_soft.process(&mut buf2);
    }

    let mut buffer_loud = vec![0i64; 256];
    let mut buffer_soft = vec![0i64; 256];
    vm_loud.process(&mut buffer_loud);
    vm_soft.process(&mut buffer_soft);

    let rms_loud = calculate_rms(&buffer_loud);
    let rms_soft = calculate_rms(&buffer_soft);

    assert!(
        rms_loud > rms_soft * 1.3,
        "Higher velocity should be louder: {} vs {}",
        rms_loud,
        rms_soft
    );
}

#[test]
fn test_audio_returns_to_silence_after_release() {
    let mut vm = VoiceManager::new(SAMPLE_RATE, 16);

    vm.note_on(60, UNIT);
    vm.note_off(60);

    // Process through release (default release time is well under a second)
    for _ in 0..100 {
        let mut buffer = vec![0i64; 128];
        vm.process(&mut buffer);
    }

    let mut buffer = vec![0i64; 256];
    vm.process(&mut buffer);

    let rms = calculate_rms(&buffer);
    assert!(rms < 0.001, "Should be silent after release, got RMS {}", rms);
}

#[test]
fn test_voice_stealing_maintains_polyphony_limit() {
    let max_voices = 4;
    let mut vm = VoiceManager::new(SAMPLE_RATE, max_voices);

    // Play more notes than max voices
    for note in 60..70 {
        vm.note_on(note, UNIT);

        let mut buffer = vec![0i64; 64];
        vm.process(&mut buffer);
    }

    assert!(
        vm.active_voice_count() <= max_voices,
        "Should not exceed {} voices",
        max_voices
    );

    let mut buffer = vec![0i64; 256];
    vm.process(&mut buffer);

    let has_audio = buffer.iter().any(|&s| amp(s).abs() > 0.01);
    assert!(has_audio, "Should still produce audio after voice stealing");
}

#[test]
fn test_envelope_shapes_amplitude_over_time() {
    let mut voice = Voice::new(SAMPLE_RATE);

    // attack: 50ms, decay: 50ms, sustain: 50%, release: 50ms
    voice.set_envelope_attack_ms(50 * UNIT);
    voice.set_envelope_decay_ms(50 * UNIT);
    voice.set_envelope_sustain_level(UNIT / 2);
    voice.set_envelope_release_ms(50 * UNIT);

    voice.note_on(60, UNIT);

    // Attack phase (0 to 50ms): magnitude should increase
    let attack_start = voice.process().abs();
    for _ in 0..(SAMPLE_RATE as f32 * 0.025) as usize {
        voice.process();
    }
    let attack_mid = voice.process().abs();
    for _ in 0..(SAMPLE_RATE as f32 * 0.025) as usize {
        voice.process();
    }
    let attack_end = voice.process().abs();

    assert!(attack_mid > attack_start, "Attack amplitude should increase");
    assert!(
        attack_end > attack_mid,
        "Attack amplitude should continue increasing"
    );

    // Decay phase (50 to 100ms): should decrease toward the sustain level
    for _ in 0..(SAMPLE_RATE as f32 * 0.05) as usize {
        voice.process();
    }
    let decay_end = amp(voice.process().abs());

    assert!(
        (decay_end - 0.5).abs() < 0.2,
        "Should reach sustain level ~0.5, got {}",
        decay_end
    );

    // Sustain phase: RMS should hold steady
    let sustain_samples1: Vec<i64> = (0..100).map(|_| voice.process()).collect();
    let sustain_rms1 = calculate_rms(&sustain_samples1);

    for _ in 0..1000 {
        voice.process();
    }

    let sustain_samples2: Vec<i64> = (0..100).map(|_| voice.process()).collect();
    let sustain_rms2 = calculate_rms(&sustain_samples2);

    assert!(
        (sustain_rms1 - sustain_rms2).abs() < 0.05,
        "Sustain RMS should hold steady: {} vs {}",
        sustain_rms1,
        sustain_rms2
    );
}

#[test]
fn test_oscillator_waveform_selection() {
    let mut voice_sine = Voice::new(SAMPLE_RATE);
    let mut voice_saw = Voice::new(SAMPLE_RATE);

    voice_sine.set_waveform(WaveformType::Sine);
    voice_saw.set_waveform(WaveformType::Sawtooth);

    voice_sine.note_on(60, UNIT);
    voice_saw.note_on(60, UNIT);

    let samples_sine: Vec<i64> = (0..1000).map(|_| voice_sine.process()).collect();
    let samples_saw: Vec<i64> = (0..1000).map(|_| voice_saw.process()).collect();

    let diff: f32 = samples_sine
        .iter()
        .zip(samples_saw.iter())
        .map(|(s1, s2)| (amp(*s1) - amp(*s2)).abs())
        .sum();

    assert!(
        diff > 100.0,
        "Different waveforms should produce different output"
    );
}

#[test]
fn test_no_audio_glitches_on_parameter_changes() {
    let mut voice = Voice::new(SAMPLE_RATE);
    voice.note_on(60, UNIT);

    let mut samples = Vec::new();
    for _ in 0..100 {
        samples.push(voice.process());
    }

    // Change envelope parameters mid-note
    voice.set_envelope_decay_ms(200 * UNIT);
    voice.set_envelope_sustain_level(300_000);

    for _ in 0..100 {
        samples.push(voice.process());
    }

    // Check for discontinuities (clicks)
    let max_jump = samples
        .windows(2)
        .map(|w| (amp(w[1]) - amp(w[0])).abs())
        .fold(0.0f32, f32::max);

    assert!(
        max_jump < 0.5,
        "Parameter changes should not cause clicks, max jump: {}",
        max_jump
    );
}

#[test]
fn test_real_time_safety_no_panics() {
    let mut vm = VoiceManager::new(SAMPLE_RATE, 16);

    // Stress test with a spread of events
    for i in 0..1000i64 {
        let note = 48 + (i % 36) as u8;

        if i % 3 == 0 {
            vm.note_on(note, (i % 10) * UNIT / 10);
        }
        if i % 5 == 0 {
            vm.note_off(note);
        }

        let mut buffer = vec![0i64; 128];
        vm.process(&mut buffer);

        // All samples must stay within the mix range
        for &sample in &buffer {
            assert!(
                sample.abs() <= 16 * UNIT,
                "All samples should stay in the mix range"
            );
        }
    }
}
