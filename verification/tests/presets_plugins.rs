use audio_synth::fixed::UNIT;
use audio_synth::osc::WaveShape;
use audio_synth::filter::FilterType;
use audio_synth::engine::AudioSynthesizer;
use audio_synth::plugin::AudioPlugin;
use audio_synth::preset::{SynthPreset, create_default_presets};
use audio_synth::demo::{add, fibonacci};

#[test]
fn plugin_parameters_round_trip() {
    let mut plugin = AudioPlugin::new(
        "reverb-1".to_string(), "Reverb".to_string(), "effect".to_string());
    assert_eq!(plugin.get_parameter("wet"), None);
    plugin.set_parameter("wet", UNIT / 2);
    plugin.set_parameter("dry", UNIT);
    assert_eq!(plugin.get_parameter("wet"), Some(UNIT / 2));
    assert_eq!(plugin.get_parameter("dry"), Some(UNIT));
    assert_eq!(plugin.get_parameter("size"), None);
    plugin.set_parameter("wet", UNIT / 4);
    assert_eq!(plugin.get_parameter("wet"), Some(UNIT / 4));
    assert_eq!(plugin.parameters.len(), 2);
}

#[test]
fn plugin_getters_return_fields() {
    let plugin = AudioPlugin::new(
        "delay-1".to_string(), "Delay".to_string(), "effect".to_string());
    assert_eq!(plugin.id(), "delay-1");
    assert_eq!(plugin.name(), "Delay");
    assert_eq!(plugin.plugin_type(), "effect");
}

#[test]
fn add_plugin_overwrites_by_id() {
    let mut synth = AudioSynthesizer::new(44100, 2);
    synth.add_plugin(AudioPlugin::new(
        "fx".to_string(), "First".to_string(), "effect".to_string()));
    synth.add_plugin(AudioPlugin::new(
        "other".to_string(), "Other".to_string(), "effect".to_string()));
    synth.add_plugin(AudioPlugin::new(
        "fx".to_string(), "Second".to_string(), "effect".to_string()));
    assert_eq!(synth.plugins.len(), 2);
    assert_eq!(synth.plugins[0].name(), "Second");
    assert_eq!(synth.plugins[1].name(), "Other");
}

#[test]
fn preset_defaults_match_engine_defaults() {
    let preset = SynthPreset::new("Init".to_string());
    assert_eq!(preset.name(), "Init");
    assert_eq!(preset.wave_shape, 0);
    assert_eq!(preset.attack, 6554);
    assert_eq!(preset.decay, 13107);
    assert_eq!(preset.sustain, 45875);
    assert_eq!(preset.release, 32768);
    assert_eq!(preset.filter_cutoff, 1000 * UNIT);
    assert_eq!(preset.filter_resonance, UNIT);
    assert_eq!(preset.filter_type, 0);
}

#[test]
fn preset_round_trip_reads_back_exactly() {
    let mut synth = AudioSynthesizer::new(44100, 3);
    let mut preset = SynthPreset::new("Test".to_string());
    preset.wave_shape = 3;
    preset.attack = 655;
    preset.decay = 19661;
    preset.sustain = 39322;
    preset.release = 13107;
    preset.filter_cutoff = 2000 * UNIT;
    preset.filter_resonance = 2 * UNIT;
    preset.filter_type = 2;
    preset.apply_to_synth(&mut synth);
    for voice in &synth.voices {
        assert_eq!(voice.generator.shape, WaveShape::Triangle);
        assert_eq!(voice.envelope.attack, 655);
        assert_eq!(voice.envelope.decay, 19661);
        assert_eq!(voice.envelope.sustain, 39322);
        assert_eq!(voice.envelope.release, 13107);
        assert_eq!(voice.filter.cutoff, 2000 * UNIT);
        assert_eq!(voice.filter.resonance, 2 * UNIT);
        assert_eq!(voice.filter.filter_type, FilterType::BandPass);
    }
}

#[test]
fn unknown_codes_fall_back_to_custom_and_notch() {
    let mut synth = AudioSynthesizer::new(44100, 1);
    let mut preset = SynthPreset::new("Odd".to_string());
    preset.wave_shape = 200;
    preset.filter_type = 77;
    preset.apply_to_synth(&mut synth);
    assert_eq!(synth.voices[0].generator.shape, WaveShape::Custom);
    assert_eq!(synth.voices[0].filter.filter_type, FilterType::Notch);
}

#[test]
fn preset_application_clamps_out_of_range_values() {
    let mut synth = AudioSynthesizer::new(44100, 1);
    let mut preset = SynthPreset::new("Loud".to_string());
    preset.sustain = 10 * UNIT;
    preset.filter_cutoff = -50;
    preset.filter_resonance = 1000 * UNIT;
    preset.apply_to_synth(&mut synth);
    assert_eq!(synth.voices[0].envelope.sustain, UNIT);
    assert_eq!(synth.voices[0].filter.cutoff, 20 * UNIT);
    assert_eq!(synth.voices[0].filter.resonance, 40 * UNIT);
}

#[test]
fn default_presets_have_expected_values() {
    let presets = create_default_presets();
    assert_eq!(presets.len(), 4);
    assert_eq!(presets[0].name(), "Classic Lead");
    assert_eq!(presets[0].wave_shape, 1);
    assert_eq!(presets[0].attack, 655);
    assert_eq!(presets[0].filter_cutoff, 2000 * UNIT);
    assert_eq!(presets[1].name(), "Warm Pad");
    assert_eq!(presets[1].wave_shape, 0);
    assert_eq!(presets[1].release, 2 * UNIT);
    assert_eq!(presets[2].name(), "Bass");
    assert_eq!(presets[2].wave_shape, 2);
    assert_eq!(presets[2].sustain, 58982);
    assert_eq!(presets[3].name(), "Pluck");
    assert_eq!(presets[3].wave_shape, 3);
    assert_eq!(presets[3].sustain, 0);
}

#[test]
fn waveform_data_has_requested_length() {
    let data = audio_synth::generate_waveform_data(WaveShape::Square, 100, 440 * UNIT, 44100);
    assert_eq!(data.len(), 100);
    assert_eq!(data[0], UNIT);
}

#[test]
fn add_and_fibonacci_compute() {
    assert_eq!(add(2, 3), 5);
    assert_eq!(add(-7, 7), 0);
    assert_eq!(fibonacci(0), 0);
    assert_eq!(fibonacci(1), 1);
    assert_eq!(fibonacci(10), 55);
    assert_eq!(fibonacci(20), 6765);
}
