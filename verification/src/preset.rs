//! Presets: named snapshots of wave shape, ADSR and filter settings.
//!
//! A preset stores the wave shape and filter type as numeric codes, as a flat
//! record ready for serialization by a host adapter.  Unknown wave-shape
//! codes decode to `Custom` and unknown filter-type codes to `Notch` — the
//! documented fallbacks.  Applying a preset broadcasts its values to every
//! voice of an engine uniformly.

use vstd::prelude::*;
use crate::fixed::{UNIT, HALF_UNIT, clamp_s};
use crate::osc::{WaveGenerator, WaveShape};
use crate::envelope::{EnvelopeGenerator, DUR_MAX};
use crate::filter::{Filter, FilterType, CUTOFF_MIN, RES_MIN, RES_MAX};
use crate::voice::Voice;
use crate::engine::AudioSynthesizer;

verus! {

/// The wave shape a stored code decodes to; any unknown code falls back to
/// `Custom`.
pub open spec fn wave_shape_of_code_s(code: u8) -> WaveShape {
    if code == 0 { WaveShape::Sine }
    else if code == 1 { WaveShape::Saw }
    else if code == 2 { WaveShape::Square }
    else if code == 3 { WaveShape::Triangle }
    else if code == 4 { WaveShape::Noise }
    else { WaveShape::Custom }
}

/// The filter type a stored code decodes to; any unknown code falls back to
/// `Notch`.
pub open spec fn filter_type_of_code_s(code: u8) -> FilterType {
    if code == 0 { FilterType::LowPass }
    else if code == 1 { FilterType::HighPass }
    else if code == 2 { FilterType::BandPass }
    else { FilterType::Notch }
}

/// The wave shape a stored code decodes to.
pub fn wave_shape_of_code(code: u8) -> (r: WaveShape)
    ensures
        r == wave_shape_of_code_s(code),
{
    if code == 0 { WaveShape::Sine }
    else if code == 1 { WaveShape::Saw }
    else if code == 2 { WaveShape::Square }
    else if code == 3 { WaveShape::Triangle }
    else if code == 4 { WaveShape::Noise }
    else { WaveShape::Custom }
}

/// The filter type a stored code decodes to.
pub fn filter_type_of_code(code: u8) -> (r: FilterType)
    ensures
        r == filter_type_of_code_s(code),
{
    if code == 0 { FilterType::LowPass }
    else if code == 1 { FilterType::HighPass }
    else if code == 2 { FilterType::BandPass }
    else { FilterType::Notch }
}

/// A named snapshot of the engine's timbre settings, durations and levels in
/// Q16.16.
pub struct SynthPreset {
    pub name: String,
    /// Wave shape code (0 Sine, 1 Saw, 2 Square, 3 Triangle, 4 Noise,
    /// anything else Custom).
    pub wave_shape: u8,
    pub attack: i64,
    pub decay: i64,
    pub sustain: i64,
    pub release: i64,
    /// Filter cutoff in Q16.16 Hz.
    pub filter_cutoff: i64,
    pub filter_resonance: i64,
    /// Filter type code (0 LowPass, 1 HighPass, 2 BandPass, anything else
    /// Notch).
    pub filter_type: u8,
}

impl SynthPreset {
    pub fn new(name: String) -> (r: SynthPreset)
        ensures
            r.name@ == name@,
            r.wave_shape == 0,
            r.attack == 6554,
            r.decay == 13107,
            r.sustain == 45875,
            r.release == 32768,
            r.filter_cutoff == 65536000,
            r.filter_resonance == UNIT,
            r.filter_type == 0,
    {
        SynthPreset {
            name,
            // the defaults 0.1, 0.2, 0.7, 0.5 and 1000 Hz, Q 1, low-pass
            wave_shape: 0,
            attack: 6554,
            decay: 13107,
            sustain: 45875,
            release: 32768,
            filter_cutoff: 65536000,
            filter_resonance: UNIT,
            filter_type: 0,
        }
    }

    /// Broadcasts the preset's wave shape, ADSR and filter settings to every
    /// voice of the engine, decoding the two stored codes with their
    /// documented fallbacks.  Values outside the setters' ranges clamp as
    /// the setters clamp; values inside them are applied exactly, so reading
    /// the voices back yields the preset's values (see
    /// `lemma_preset_round_trip`).
    pub fn apply_to_synth(&self, synth: &mut AudioSynthesizer)
        requires
            old(synth).wf(),
        ensures
            final(synth).wf(),
            final(synth).voices@.len() == old(synth).voices@.len(),
            forall|i: int| 0 <= i < old(synth).voices@.len()
                ==> (#[trigger] final(synth).voices@[i]).generator
                    == (WaveGenerator {
                        shape: wave_shape_of_code_s(self.wave_shape),
                        ..old(synth).voices@[i].generator }),
            forall|i: int| 0 <= i < old(synth).voices@.len()
                ==> ({
                    let e = (#[trigger] final(synth).voices@[i]).envelope;
                    &&& e.attack == clamp_s(self.attack as int, 0, DUR_MAX as int)
                    &&& e.decay == clamp_s(self.decay as int, 0, DUR_MAX as int)
                    &&& e.sustain == clamp_s(self.sustain as int, 0, UNIT as int)
                    &&& e.release == clamp_s(self.release as int, 0, DUR_MAX as int)
                    &&& e.state == old(synth).voices@[i].envelope.state
                    &&& e.time == old(synth).voices@[i].envelope.time
                    &&& e.value == old(synth).voices@[i].envelope.value
                    &&& e.sample_rate == old(synth).voices@[i].envelope.sample_rate
                }),
            forall|i: int| 0 <= i < old(synth).voices@.len()
                ==> ({
                    let f = (#[trigger] final(synth).voices@[i]).filter;
                    &&& f.cutoff == {
                        let raised: int = if self.filter_cutoff < CUTOFF_MIN {
                            CUTOFF_MIN as int
                        } else {
                            self.filter_cutoff as int
                        };
                        let nyq: int = (old(synth).voices@[i].filter.sample_rate as int)
                            * (HALF_UNIT as int);
                        if raised > nyq { nyq } else { raised }
                    }
                    &&& f.resonance == clamp_s(self.filter_resonance as int,
                        RES_MIN as int, RES_MAX as int)
                    &&& f.filter_type == filter_type_of_code_s(self.filter_type)
                    &&& f == (Filter {
                        cutoff: f.cutoff, resonance: f.resonance,
                        filter_type: f.filter_type,
                        ..old(synth).voices@[i].filter })
                }),
            forall|i: int| 0 <= i < old(synth).voices@.len()
                ==> ({
                    let v = (#[trigger] final(synth).voices@[i]);
                    &&& v.note == old(synth).voices@[i].note
                    &&& v.velocity == old(synth).voices@[i].velocity
                    &&& v.is_active == old(synth).voices@[i].is_active
                }),
            final(synth).sample_rate == old(synth).sample_rate,
            final(synth).max_voices == old(synth).max_voices,
            final(synth).master_volume == old(synth).master_volume,
            final(synth).plugins@ == old(synth).plugins@,
    {
        let wave_shape = wave_shape_of_code(self.wave_shape);
        let filter_type = filter_type_of_code(self.filter_type);
        synth.set_global_wave_shape(wave_shape);
        synth.set_global_envelope(self.attack, self.decay, self.sustain, self.release);
        synth.set_global_filter(self.filter_cutoff, self.filter_resonance, filter_type);
    }

    /// The preset's name.
    pub fn name(&self) -> (r: String)
        ensures
            r@ == self.name@,
    {
        self.name.clone()
    }
}

/// Preset round trip: when a preset's durations, sustain, cutoff and
/// resonance lie inside the setters' ranges (for an engine at sample rate
/// `sr`), applying it changes nothing about them — reading each voice's
/// envelope and filter fields back yields exactly the preset's values, and
/// the wave shape and filter type are exactly the decoded codes.
pub proof fn lemma_preset_round_trip(p: SynthPreset, sr: u32)
    requires
        0 <= p.attack <= DUR_MAX,
        0 <= p.decay <= DUR_MAX,
        0 <= p.sustain <= UNIT,
        0 <= p.release <= DUR_MAX,
        CUTOFF_MIN <= p.filter_cutoff <= (sr as int) * (HALF_UNIT as int),
        RES_MIN <= p.filter_resonance <= RES_MAX,
    ensures
        clamp_s(p.attack as int, 0, DUR_MAX as int) == p.attack,
        clamp_s(p.decay as int, 0, DUR_MAX as int) == p.decay,
        clamp_s(p.sustain as int, 0, UNIT as int) == p.sustain,
        clamp_s(p.release as int, 0, DUR_MAX as int) == p.release,
        ({
            let raised: int = if p.filter_cutoff < CUTOFF_MIN { CUTOFF_MIN as int } else {
                p.filter_cutoff as int };
            let nyq: int = (sr as int) * (HALF_UNIT as int);
            (if raised > nyq { nyq } else { raised }) == p.filter_cutoff
        }),
        clamp_s(p.filter_resonance as int, RES_MIN as int, RES_MAX as int)
            == p.filter_resonance,
{
}

/// The four built-in presets, in Q16.16: a saw lead, a sine pad, a square
/// bass and a triangle pluck.
pub fn create_default_presets() -> (r: Vec<SynthPreset>)
    ensures
        r@.len() == 4,
        r@[0].name@ == "Classic Lead"@,
        r@[1].name@ == "Warm Pad"@,
        r@[2].name@ == "Bass"@,
        r@[3].name@ == "Pluck"@,
        r@[0].wave_shape == 1 && r@[0].attack == 655 && r@[0].decay == 19661
            && r@[0].sustain == 39322 && r@[0].release == 13107
            && r@[0].filter_cutoff == 131072000 && r@[0].filter_resonance == 131072
            && r@[0].filter_type == 0,
        r@[1].wave_shape == 0 && r@[1].attack == 65536 && r@[1].decay == 32768
            && r@[1].sustain == 52429 && r@[1].release == 131072
            && r@[1].filter_cutoff == 52428800 && r@[1].filter_resonance == 78643
            && r@[1].filter_type == 0,
        r@[2].wave_shape == 2 && r@[2].attack == 655 && r@[2].decay == 6554
            && r@[2].sustain == 58982 && r@[2].release == 6554
            && r@[2].filter_cutoff == 26214400 && r@[2].filter_resonance == 98304
            && r@[2].filter_type == 0,
        r@[3].wave_shape == 3 && r@[3].attack == 66 && r@[3].decay == 52429
            && r@[3].sustain == 0 && r@[3].release == 6554
            && r@[3].filter_cutoff == 196608000 && r@[3].filter_resonance == 52429
            && r@[3].filter_type == 0,
{
    let mut presets: Vec<SynthPreset> = Vec::new();

    let mut lead = SynthPreset::new("Classic Lead".to_owned());
    lead.wave_shape = 1;
    lead.attack = 655;
    lead.decay = 19661;
    lead.sustain = 39322;
    lead.release = 13107;
    lead.filter_cutoff = 131072000;
    lead.filter_resonance = 131072;
    presets.push(lead);

    let mut pad = SynthPreset::new("Warm Pad".to_owned());
    pad.wave_shape = 0;
    pad.attack = 65536;
    pad.decay = 32768;
    pad.sustain = 52429;
    pad.release = 131072;
    pad.filter_cutoff = 52428800;
    pad.filter_resonance = 78643;
    presets.push(pad);

    let mut bass = SynthPreset::new("Bass".to_owned());
    bass.wave_shape = 2;
    bass.attack = 655;
    bass.decay = 6554;
    bass.sustain = 58982;
    bass.release = 6554;
    bass.filter_cutoff = 26214400;
    bass.filter_resonance = 98304;
    presets.push(bass);

    let mut pluck = SynthPreset::new("Pluck".to_owned());
    pluck.wave_shape = 3;
    pluck.attack = 66;
    pluck.decay = 52429;
    pluck.sustain = 0;
    pluck.release = 6554;
    pluck.filter_cutoff = 196608000;
    pluck.filter_resonance = 52429;
    presets.push(pluck);

    presets
}

} // verus!
