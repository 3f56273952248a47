use audio_synth::fixed::{UNIT, SAMPLE_LIMIT};
use audio_synth::osc::{WaveGenerator, WaveShape};
use audio_synth::envelope::{EnvelopeGenerator, EnvelopeState};
use audio_synth::filter::{Filter, FilterType};
use audio_synth::voice::{Voice, midi_freq};
use audio_synth::engine::AudioSynthesizer;

#[test]
fn sine_starts_at_zero() {
    let mut osc = WaveGenerator::new(44100);
    assert_eq!(osc.phase, 0);
    assert_eq!(osc.generate_sample(), 0);
}

#[test]
fn square_starts_at_plus_one() {
    let mut osc = WaveGenerator::new(44100);
    osc.set_wave_shape(WaveShape::Square);
    assert_eq!(osc.generate_sample(), UNIT);
}

#[test]
fn triangle_starts_at_minus_one() {
    // the centered-triangle formula 4p - 1 starts at -1
    let mut osc = WaveGenerator::new(44100);
    osc.set_wave_shape(WaveShape::Triangle);
    assert_eq!(osc.generate_sample(), -UNIT);
}

#[test]
fn square_is_scaled_by_amplitude() {
    let mut osc = WaveGenerator::new(44100);
    osc.set_wave_shape(WaveShape::Square);
    osc.set_amplitude(UNIT / 2);
    assert_eq!(osc.generate_sample(), UNIT / 2);
}

#[test]
fn saw_values_are_exact() {
    // at 1 Hz over 2 samples per second the phase alternates 0, 1/2
    let mut osc = WaveGenerator::new(2);
    osc.set_wave_shape(WaveShape::Saw);
    osc.set_frequency(UNIT);
    assert_eq!(osc.generate_sample(), -UNIT);
    assert_eq!(osc.generate_sample(), -2 * UNIT);
    assert_eq!(osc.generate_sample(), -UNIT);
}

#[test]
fn phase_stays_normalized() {
    let mut osc = WaveGenerator::new(44100);
    osc.set_frequency(440 * UNIT);
    for _ in 0..10000 {
        osc.generate_sample();
        assert!(0 <= osc.phase && osc.phase < UNIT);
    }
}

#[test]
fn phase_stays_normalized_for_negative_frequency() {
    let mut osc = WaveGenerator::new(44100);
    osc.set_frequency(-7000 * UNIT);
    for _ in 0..1000 {
        osc.generate_sample();
        assert!(0 <= osc.phase && osc.phase < UNIT);
    }
}

#[test]
fn noise_is_bounded_and_deterministic() {
    let mut a = WaveGenerator::new(44100);
    let mut b = WaveGenerator::new(44100);
    a.set_wave_shape(WaveShape::Noise);
    b.set_wave_shape(WaveShape::Noise);
    for _ in 0..200 {
        let x = a.generate_sample();
        let y = b.generate_sample();
        assert_eq!(x, y);
        assert!(-UNIT <= x && x <= UNIT);
    }
}

#[test]
fn custom_harmonics_are_clamped_and_capped() {
    let mut osc = WaveGenerator::new(44100);
    osc.set_custom_harmonics(&vec![3 * UNIT, -3 * UNIT, 100]);
    assert_eq!(osc.custom_harmonics, vec![UNIT, -UNIT, 100]);
    osc.set_wave_shape(WaveShape::Custom);
    // every harmonic crosses zero at phase 0
    assert_eq!(osc.generate_sample(), 0);
}

#[test]
fn generate_buffer_advances_like_single_samples() {
    let mut a = WaveGenerator::new(44100);
    let mut b = WaveGenerator::new(44100);
    let buf = a.generate_buffer(64);
    assert_eq!(buf.len(), 64);
    for sample in buf {
        assert_eq!(sample, b.generate_sample());
    }
}

#[test]
fn envelope_values_stay_in_range() {
    let mut env = EnvelopeGenerator::new(44100);
    env.set_adsr(655, 6554, 45875, 13107);
    env.note_on();
    for i in 0..5000 {
        let v = env.get_value();
        assert!(0 <= v && v <= UNIT);
        if i == 700 {
            env.note_off();
        }
        if i == 1500 {
            env.note_on();
        }
    }
}

#[test]
fn envelope_attack_ramp_is_linear() {
    // 1 second stages at 100 Hz: the attack lasts exactly 100 ticks
    let mut env = EnvelopeGenerator::new(100);
    env.set_adsr(UNIT, UNIT, UNIT / 2, UNIT);
    env.note_on();
    let mut last = 0;
    for _ in 0..51 {
        last = env.get_value();
    }
    // the 51st call evaluates the ramp at 50 of 100 ticks
    assert_eq!(last, UNIT / 2);
    for _ in 0..50 {
        last = env.get_value();
    }
    // the attack boundary forces the value to exactly 1
    assert_eq!(last, UNIT);
}

#[test]
fn envelope_decay_reaches_sustain() {
    let mut env = EnvelopeGenerator::new(100);
    env.set_adsr(6554, 6554, 45875, 6554);
    env.note_on();
    for _ in 0..60 {
        env.get_value();
    }
    assert_eq!(env.state, EnvelopeState::Sustain);
    assert_eq!(env.get_value(), 45875);
}

#[test]
fn note_off_on_idle_envelope_releases_then_settles() {
    let mut env = EnvelopeGenerator::new(100);
    env.set_adsr(6554, 6554, 45875, 6554);
    assert_eq!(env.state, EnvelopeState::Idle);
    env.note_off();
    assert_eq!(env.state, EnvelopeState::Release);
    assert!(env.is_active());
    let release_ticks = 10; // 0.1 s at 100 Hz
    let mut all_in_range = true;
    for _ in 0..(release_ticks + 2) {
        let v = env.get_value();
        if v < 0 || v > UNIT {
            all_in_range = false;
        }
    }
    assert!(all_in_range);
    assert_eq!(env.state, EnvelopeState::Idle);
    assert_eq!(env.value, 0);
}

#[test]
fn filter_passes_impulse_through_at_nyquist() {
    // low-pass at the Nyquist frequency with minimum resonance is exact
    // passthrough for the cookbook coefficients
    let mut filter = Filter::new(44100);
    filter.set_cutoff(22050 * UNIT);
    filter.set_resonance(6554);
    filter.set_type(FilterType::LowPass);
    assert_eq!(filter.process(UNIT), UNIT);
    assert_eq!(filter.process(0), 0);
    assert_eq!(filter.process(0), 0);
}

#[test]
fn filter_clamps_cutoff_and_resonance() {
    let mut filter = Filter::new(44100);
    filter.set_cutoff(0);
    assert_eq!(filter.cutoff, 20 * UNIT);
    filter.set_cutoff(i64::MAX / 2);
    assert_eq!(filter.cutoff, 22050 * UNIT);
    filter.set_resonance(0);
    assert_eq!(filter.resonance, 6554);
    filter.set_resonance(100 * UNIT);
    assert_eq!(filter.resonance, 40 * UNIT);
}

#[test]
fn filter_output_is_saturated() {
    let mut filter = Filter::new(44100);
    for _ in 0..100 {
        let y = filter.process(SAMPLE_LIMIT);
        assert!(-SAMPLE_LIMIT <= y && y <= SAMPLE_LIMIT);
    }
}

#[test]
fn process_buffer_matches_sequential_processing() {
    let mut a = Filter::new(8000);
    let mut b = Filter::new(8000);
    a.set_type(FilterType::BandPass);
    b.set_type(FilterType::BandPass);
    let mut buf = vec![UNIT, 0, -UNIT, UNIT / 2, 0, 0, UNIT / 4, -UNIT / 2];
    let expected: Vec<i64> = buf.iter().map(|&x| b.process(x)).collect();
    a.process_buffer(&mut buf);
    assert_eq!(buf, expected);
}

#[test]
fn midi_note_69_is_concert_a() {
    assert_eq!(midi_freq(69), 440 * UNIT);
    assert_eq!(midi_freq(81), 880 * UNIT);
    assert_eq!(midi_freq(57), 220 * UNIT);
}

#[test]
fn voice_note_on_sets_frequency_and_activates() {
    let mut voice = Voice::new(44100);
    assert!(!voice.is_active());
    voice.note_on(69, UNIT);
    assert!(voice.is_active());
    assert_eq!(voice.note, 69);
    assert_eq!(voice.velocity, UNIT);
    assert_eq!(voice.generator.frequency, 440 * UNIT);
    assert_eq!(voice.envelope.state, EnvelopeState::Attack);
}

#[test]
fn inactive_voice_produces_silence_without_advancing() {
    let mut voice = Voice::new(44100);
    let phase_before = voice.generator.phase;
    assert_eq!(voice.generate_sample(), 0);
    assert_eq!(voice.generator.phase, phase_before);
}

#[test]
fn voice_deactivates_after_release() {
    let mut voice = Voice::new(100);
    voice.set_envelope(6554, 6554, 45875, 6554);
    voice.note_on(60, UNIT);
    voice.note_off();
    for _ in 0..50 {
        voice.generate_sample();
    }
    assert!(!voice.is_active());
}

#[test]
fn voice_stealing_reuses_voice_zero() {
    let mut synth = AudioSynthesizer::new(44100, 1);
    synth.note_on(60, UNIT);
    synth.note_on(72, UNIT / 2);
    assert_eq!(synth.voices[0].note, 72);
    assert_eq!(synth.voices[0].velocity, UNIT / 2);
    assert_eq!(synth.get_active_voice_count(), 1);
}

#[test]
fn note_on_fills_free_voices_in_order() {
    let mut synth = AudioSynthesizer::new(44100, 3);
    synth.note_on(60, UNIT);
    synth.note_on(64, UNIT);
    synth.note_on(67, UNIT);
    assert_eq!(synth.voices[0].note, 60);
    assert_eq!(synth.voices[1].note, 64);
    assert_eq!(synth.voices[2].note, 67);
    assert_eq!(synth.get_active_voice_count(), 3);
}

#[test]
fn note_off_releases_only_first_match() {
    let mut synth = AudioSynthesizer::new(44100, 3);
    synth.note_on(60, UNIT);
    synth.note_on(60, UNIT);
    synth.note_off(60);
    assert_eq!(synth.voices[0].envelope.state, EnvelopeState::Release);
    assert_eq!(synth.voices[1].envelope.state, EnvelopeState::Attack);
}

#[test]
fn all_notes_off_releases_every_voice() {
    let mut synth = AudioSynthesizer::new(44100, 4);
    synth.note_on(60, UNIT);
    synth.note_on(64, UNIT);
    synth.all_notes_off();
    for voice in &synth.voices {
        assert_eq!(voice.envelope.state, EnvelopeState::Release);
    }
}

#[test]
fn four_identical_voices_mix_to_twice_one_voice() {
    // with n active voices the sum is divided by sqrt(n), so four identical
    // voices produce exactly twice one voice's sample
    let mut one = AudioSynthesizer::new(44100, 1);
    let mut four = AudioSynthesizer::new(44100, 4);
    one.set_master_volume(UNIT);
    four.set_master_volume(UNIT);
    one.note_on(69, UNIT);
    for _ in 0..4 {
        four.note_on(69, UNIT);
    }
    for _ in 0..200 {
        let s1 = one.generate_sample();
        let s4 = four.generate_sample();
        assert_eq!(s4, 2 * s1);
    }
}

#[test]
fn master_volume_is_clamped_and_applied() {
    let mut synth = AudioSynthesizer::new(44100, 2);
    synth.set_master_volume(3 * UNIT);
    assert_eq!(synth.master_volume, UNIT);
    synth.set_master_volume(-5);
    assert_eq!(synth.master_volume, 0);
    synth.note_on(69, UNIT);
    for _ in 0..50 {
        assert_eq!(synth.generate_sample(), 0);
    }
}

#[test]
fn first_sample_of_a4_is_zero_then_rises() {
    // sine at phase 0 times an envelope at 0 gives silence at t = 0, and the
    // attack pushes the output away from zero before 0.01 s has elapsed
    let mut synth = AudioSynthesizer::new(44100, 4);
    synth.set_global_envelope(655, 6554, 45875, 13107);
    synth.note_on(69, UNIT);
    assert_eq!(synth.generate_sample(), 0);
    let mut any_nonzero = false;
    for _ in 0..440 {
        if synth.generate_sample() != 0 {
            any_nonzero = true;
        }
    }
    assert!(any_nonzero);
}

#[test]
fn engine_buffer_matches_single_samples() {
    let mut a = AudioSynthesizer::new(44100, 2);
    let mut b = AudioSynthesizer::new(44100, 2);
    a.note_on(69, UNIT);
    b.note_on(69, UNIT);
    let buf = a.generate_buffer(32);
    assert_eq!(buf.len(), 32);
    for sample in buf {
        assert_eq!(sample, b.generate_sample());
    }
}

#[test]
fn empty_buffers_are_allowed() {
    let mut osc = WaveGenerator::new(44100);
    assert_eq!(osc.generate_buffer(0).len(), 0);
    let mut synth = AudioSynthesizer::new(44100, 2);
    assert_eq!(synth.generate_buffer(0).len(), 0);
    let mut filter = Filter::new(44100);
    let mut buf: Vec<i64> = Vec::new();
    filter.process_buffer(&mut buf);
    assert_eq!(buf.len(), 0);
}

#[test]
fn custom_shape_without_harmonics_is_silent() {
    let mut osc = WaveGenerator::new(44100);
    osc.set_custom_harmonics(&Vec::new());
    osc.set_wave_shape(WaveShape::Custom);
    for _ in 0..10 {
        assert_eq!(osc.generate_sample(), 0);
    }
}

#[test]
fn largest_voice_pool_constructs() {
    let mut synth = AudioSynthesizer::new(44100, 4096);
    synth.note_on(69, UNIT);
    assert_eq!(synth.get_active_voice_count(), 1);
}

#[test]
fn fresh_engine_voices_have_default_state() {
    let synth = AudioSynthesizer::new(44100, 3);
    for voice in &synth.voices {
        assert!(!voice.is_active);
        assert_eq!(voice.note, 60);
        assert_eq!(voice.velocity, UNIT);
        assert_eq!(voice.generator.phase, 0);
        assert_eq!(voice.generator.frequency, 440 * UNIT);
        assert_eq!(voice.generator.amplitude, UNIT);
        assert_eq!(voice.generator.shape, WaveShape::Sine);
        assert_eq!(voice.envelope.state, EnvelopeState::Idle);
        assert_eq!(voice.envelope.attack, 6554);
        assert_eq!(voice.envelope.decay, 13107);
        assert_eq!(voice.envelope.sustain, 45875);
        assert_eq!(voice.envelope.release, 32768);
        assert_eq!(voice.filter.cutoff, 1000 * UNIT);
        assert_eq!(voice.filter.resonance, UNIT);
        assert_eq!(voice.filter.filter_type, FilterType::LowPass);
        assert_eq!(voice.filter.x1, 0);
        assert_eq!(voice.filter.x2, 0);
        assert_eq!(voice.filter.y1, 0);
        assert_eq!(voice.filter.y2, 0);
    }
}
