//! One sounding note: an oscillator shaped by an ADSR envelope and fed
//! through a resonant filter.
//!
//! `note_on` converts the MIDI note to a frequency by
//! `440 * 2^((note - 69) / 12)` Hz, evaluated in Q16.16 with an exact
//! semitone table, and retriggers the envelope; the voice deactivates itself
//! once the envelope has finished its Release stage.

use vstd::prelude::*;
use crate::fixed::{
    UNIT, HALF_UNIT, QUARTER_UNIT, SAMPLE_LIMIT, tdiv, tdiv_s, clamp, clamp_s, within,
    lemma_tdiv_in_range, lemma_mul_within,
};
use crate::osc::{WaveGenerator, WaveShape, FREQ_LIMIT, NOISE_SEED};
use crate::envelope::{EnvelopeGenerator, EnvelopeState};
use crate::filter::{Filter, FilterType};
use vstd::arithmetic::div_mod::{lemma_div_pos_is_pos, lemma_div_multiples_vanish, lemma_div_of0};

verus! {

/// The ratio `2^(k/12)` in Q16.16 for semitone offsets `k` in `[0, 11]`.
pub open spec fn semitone_s(k: int) -> int {
    if k == 0 { 65536 }
    else if k == 1 { 69433 }
    else if k == 2 { 73562 }
    else if k == 3 { 77936 }
    else if k == 4 { 82570 }
    else if k == 5 { 87480 }
    else if k == 6 { 92682 }
    else if k == 7 { 98193 }
    else if k == 8 { 104032 }
    else if k == 9 { 110218 }
    else if k == 10 { 116772 }
    else { 123715 }
}

/// `2^o` for octave indices `o` in `[0, 21]` (a note byte reaches octave 21
/// at most).
pub open spec fn pot_s(o: int) -> int {
    if o == 0 { 1 }
    else if o == 1 { 2 }
    else if o == 2 { 4 }
    else if o == 3 { 8 }
    else if o == 4 { 16 }
    else if o == 5 { 32 }
    else if o == 6 { 64 }
    else if o == 7 { 128 }
    else if o == 8 { 256 }
    else if o == 9 { 512 }
    else if o == 10 { 1024 }
    else if o == 11 { 2048 }
    else if o == 12 { 4096 }
    else if o == 13 { 8192 }
    else if o == 14 { 16384 }
    else if o == 15 { 32768 }
    else if o == 16 { 65536 }
    else if o == 17 { 131072 }
    else if o == 18 { 262144 }
    else if o == 19 { 524288 }
    else if o == 20 { 1048576 }
    else { 2097152 }
}

/// The frequency of a MIDI note in Q16.16 Hz: `440 * 2^((note - 69) / 12)`.
/// With `e = note + 3`, the note sits `e % 12` semitones above octave
/// `e / 12`, and `note - 69 == 12 * (e / 12 - 6) + e % 12`.
pub open spec fn midi_freq_s(note: u8) -> int {
    let e = note + 3;
    tdiv_s(440 * semitone_s(e % 12) * pot_s(e / 12), 64)
}

fn semitone(k: u32) -> (r: i64)
    ensures
        r == semitone_s(k as int),
        65536 <= r <= 123715,
{
    if k == 0 { 65536 }
    else if k == 1 { 69433 }
    else if k == 2 { 73562 }
    else if k == 3 { 77936 }
    else if k == 4 { 82570 }
    else if k == 5 { 87480 }
    else if k == 6 { 92682 }
    else if k == 7 { 98193 }
    else if k == 8 { 104032 }
    else if k == 9 { 110218 }
    else if k == 10 { 116772 }
    else { 123715 }
}

fn pot(o: u32) -> (r: i64)
    ensures
        r == pot_s(o as int),
        1 <= r <= 2097152,
{
    if o == 0 { 1 }
    else if o == 1 { 2 }
    else if o == 2 { 4 }
    else if o == 3 { 8 }
    else if o == 4 { 16 }
    else if o == 5 { 32 }
    else if o == 6 { 64 }
    else if o == 7 { 128 }
    else if o == 8 { 256 }
    else if o == 9 { 512 }
    else if o == 10 { 1024 }
    else if o == 11 { 2048 }
    else if o == 12 { 4096 }
    else if o == 13 { 8192 }
    else if o == 14 { 16384 }
    else if o == 15 { 32768 }
    else if o == 16 { 65536 }
    else if o == 17 { 131072 }
    else if o == 18 { 262144 }
    else if o == 19 { 524288 }
    else if o == 20 { 1048576 }
    else { 2097152 }
}

/// The MIDI frequency stays well inside the oscillator's frequency range.
pub proof fn lemma_midi_freq_bounds(note: u8)
    ensures
        0 <= midi_freq_s(note) <= FREQ_LIMIT,
{
    let e = note + 3;
    let s = semitone_s(e % 12);
    let p = pot_s(e / 12);
    assert(65536 <= s <= 123715);
    assert(1 <= p <= 2097152);
    assert(0 <= 440 * s * p <= (FREQ_LIMIT as int) * 64) by (nonlinear_arith)
        requires 65536 <= s <= 123715 && 1 <= p <= 2097152
            && FREQ_LIMIT == 0x4000_0000_0000;
    lemma_div_pos_is_pos(440 * s * p, 64);
    lemma_tdiv_in_range(440 * s * p, (FREQ_LIMIT as int) * 64, 64);
    lemma_div_multiples_vanish(FREQ_LIMIT as int, 64);
    assert((FREQ_LIMIT as int) * 64 == 64 * (FREQ_LIMIT as int)) by (nonlinear_arith);
}

/// The frequency of a MIDI note on machine integers.
pub fn midi_freq(note: u8) -> (f: i64)
    ensures
        f == midi_freq_s(note),
        0 <= f <= FREQ_LIMIT,
{
    proof {
        lemma_midi_freq_bounds(note);
    }
    let e: u32 = note as u32 + 3;
    let s = semitone(e % 12);
    let p = pot(e / 12);
    proof {
        lemma_mul_within(440 * s, p as int, 54434600int, 2097152int);
    }
    tdiv(440 * s * p, 64)
}

/// One polyphonic voice.
pub struct Voice {
    pub generator: WaveGenerator,
    pub envelope: EnvelopeGenerator,
    pub filter: Filter,
    /// The MIDI note this voice is sounding, 0 to 127 in ordinary use.
    pub note: u8,
    /// Velocity in Q16.16, in `[0, UNIT]`.
    pub velocity: i64,
    pub is_active: bool,
}

impl Voice {
    /// Well-formedness of the voice and its three components.
    pub open spec fn wf(self) -> bool {
        &&& self.generator.wf()
        &&& self.envelope.wf()
        &&& self.filter.wf()
        &&& 0 <= self.velocity <= UNIT
    }

    /// The state a freshly constructed voice has at the given sample rate:
    /// inactive on note 60 at full velocity, a sine oscillator at phase 0,
    /// 440 Hz, full amplitude, the default harmonic series and noise seed,
    /// an Idle envelope with the 0.1/0.2/0.7/0.5 defaults, and a low-pass
    /// filter at 1000 Hz (capped at Nyquist), resonance 1, with zero history.
    pub open spec fn is_initial(self, sample_rate: u32) -> bool {
        &&& self.wf()
        &&& self.note == 60
        &&& self.velocity == UNIT
        &&& !self.is_active
        &&& self.generator.sample_rate == sample_rate
        &&& self.generator.phase == 0
        &&& self.generator.frequency == 440 * UNIT
        &&& self.generator.amplitude == UNIT
        &&& self.generator.shape == WaveShape::Sine
        &&& self.generator.custom_harmonics@
            =~= seq![UNIT, HALF_UNIT, QUARTER_UNIT, 8192i64]
        &&& self.generator.noise_state == NOISE_SEED
        &&& self.envelope.sample_rate == sample_rate
        &&& self.envelope.attack == 6554
        &&& self.envelope.decay == 13107
        &&& self.envelope.sustain == 45875
        &&& self.envelope.release == 32768
        &&& self.envelope.state == EnvelopeState::Idle
        &&& self.envelope.time == 0
        &&& self.envelope.value == 0
        &&& self.filter.sample_rate == sample_rate
        &&& self.filter.cutoff == if 1000 * UNIT
            <= (sample_rate as int) * (HALF_UNIT as int) {
            (1000 * UNIT) as int
        } else {
            (sample_rate as int) * (HALF_UNIT as int)
        }
        &&& self.filter.resonance == UNIT
        &&& self.filter.filter_type == FilterType::LowPass
        &&& self.filter.x1 == 0
        &&& self.filter.x2 == 0
        &&& self.filter.y1 == 0
        &&& self.filter.y2 == 0
    }

    pub fn new(sample_rate: u32) -> (r: Voice)
        requires
            1 <= sample_rate,
        ensures
            r.is_initial(sample_rate),
            r.wf(),
            r.note == 60,
            r.velocity == UNIT,
            !r.is_active,
            r.generator.sample_rate == sample_rate,
            r.generator.phase == 0,
            r.generator.shape == WaveShape::Sine,
            r.envelope.sample_rate == sample_rate,
            r.envelope.state == EnvelopeState::Idle,
            r.envelope.value == 0,
            r.envelope.time == 0,
            r.filter.sample_rate == sample_rate,
            r.filter.x1 == 0 && r.filter.x2 == 0 && r.filter.y1 == 0 && r.filter.y2 == 0,
            r.filter.filter_type == FilterType::LowPass,
    {
        Voice {
            generator: WaveGenerator::new(sample_rate),
            envelope: EnvelopeGenerator::new(sample_rate),
            filter: Filter::new(sample_rate),
            note: 60,
            velocity: UNIT,
            is_active: false,
        }
    }

    /// The sample this voice contributes: zero when inactive, otherwise the
    /// oscillator sample scaled by the next envelope value and filtered.
    #[verifier::opaque]
    pub open spec fn out_s(self) -> int {
        if !self.is_active {
            0
        } else {
            self.filter.out_s(self.mix_in_s())
        }
    }

    /// The filter input: the raw oscillator output scaled by the envelope
    /// value of this step.
    pub open spec fn mix_in_s(self) -> int {
        tdiv_s(self.generator.out_s() * self.envelope.tick_s().value, UNIT as int)
    }

    /// The voice state after producing one sample.  An inactive voice does
    /// not advance at all; an active one steps all three components and
    /// deactivates itself when the envelope has reached Idle.
    #[verifier::opaque]
    pub open spec fn step_s(self) -> Voice {
        if !self.is_active {
            self
        } else {
            Voice {
                generator: self.generator.step_s(),
                envelope: self.envelope.tick_s(),
                filter: self.filter.step_s(self.mix_in_s()),
                is_active: self.envelope.tick_s().state != EnvelopeState::Idle,
                ..self
            }
        }
    }

    /// The voice as `note_on` leaves it: noted, activated, retuned, with the
    /// envelope retriggered and the filter untouched.
    pub open spec fn note_on_s(self, note: u8, velocity: i64) -> Voice {
        Voice {
            note,
            velocity: clamp_s(velocity as int, 0, UNIT as int) as i64,
            is_active: true,
            generator: WaveGenerator {
                frequency: midi_freq_s(note) as i64,
                amplitude: clamp_s(velocity as int, 0, UNIT as int) as i64,
                ..self.generator
            },
            envelope: EnvelopeGenerator {
                state: EnvelopeState::Attack, time: 0, ..self.envelope },
            ..self
        }
    }

    /// The voice as `note_off` leaves it: only the envelope moves to Release.
    pub open spec fn note_off_s(self) -> Voice {
        Voice {
            envelope: EnvelopeGenerator {
                state: EnvelopeState::Release, time: 0, ..self.envelope },
            ..self
        }
    }

    /// Starts this voice on the given note: stores note and velocity
    /// (clamped into `[0, UNIT]`), activates the voice, retunes the
    /// oscillator and retriggers the envelope.  The filter history is
    /// deliberately untouched.
    pub fn note_on(&mut self, note: u8, velocity: i64)
        requires
            old(self).wf(),
        ensures
            final(self).wf(),
            final(self).note == note,
            final(self).velocity == clamp_s(velocity as int, 0, UNIT as int),
            final(self).is_active,
            final(self).generator == (WaveGenerator {
                frequency: midi_freq_s(note) as i64,
                amplitude: final(self).velocity,
                ..old(self).generator
            }),
            final(self).envelope == (EnvelopeGenerator {
                state: EnvelopeState::Attack, time: 0, ..old(self).envelope }),
            final(self).filter == old(self).filter,
            *final(self) == old(self).note_on_s(note, velocity),
    {
        self.note = note;
        self.velocity = clamp(velocity, 0, UNIT);
        self.is_active = true;
        let frequency = midi_freq(note);
        self.generator.set_frequency(frequency);
        self.generator.set_amplitude(self.velocity);
        self.envelope.note_on();
    }

    /// Releases the envelope; the voice stays active through Release.
    pub fn note_off(&mut self)
        requires
            old(self).wf(),
        ensures
            final(self).wf(),
            final(self).envelope == (EnvelopeGenerator {
                state: EnvelopeState::Release, time: 0, ..old(self).envelope }),
            *final(self) == old(self).note_off_s(),
    {
        self.envelope.note_off();
    }

    /// Produces this voice's next sample.  An inactive voice returns zero at
    /// no cost; an active one runs oscillator, envelope and filter in turn.
    pub fn generate_sample(&mut self) -> (r: i64)
        requires
            old(self).wf(),
        ensures
            final(self).wf(),
            *final(self) == old(self).step_s(),
            r == old(self).out_s(),
            within(r as int, SAMPLE_LIMIT as int),
    {
        proof {
            reveal(Voice::out_s);
            reveal(Voice::step_s);
        }
        if !self.is_active {
            return 0;
        }
        let raw = self.generator.generate_sample();
        let env_value = self.envelope.get_value();
        proof {
            lemma_mul_within(raw as int, env_value as int, 2 * (UNIT as int), UNIT as int);
            lemma_tdiv_in_range(raw * env_value, 2 * (UNIT as int) * (UNIT as int),
                UNIT as int);
            lemma_div_multiples_vanish(2 * (UNIT as int), UNIT as int);
            assert(2 * (UNIT as int) * (UNIT as int) == (UNIT as int) * (2 * (UNIT as int)))
                by (nonlinear_arith);
        }
        let sample = tdiv(raw * env_value, UNIT);
        let filtered = self.filter.process(sample);
        if !self.envelope.is_active() {
            self.is_active = false;
        }
        filtered
    }

    /// A voice that is not sounding neither advances nor contributes.
    pub proof fn lemma_inactive_step(self)
        requires
            !self.is_active,
        ensures
            self.step_s() == self,
            self.out_s() == 0,
    {
        reveal(Voice::out_s);
        reveal(Voice::step_s);
    }

    /// At the start of a sine cycle with clean filter history the voice is
    /// silent: the sine crosses zero at phase 0, so whatever the envelope
    /// does, the filter sees a zero input and, with zero history, returns
    /// zero.  This is the state `note_on` leaves a fresh voice in.
    pub proof fn lemma_silent_at_cycle_start(self)
        requires
            self.wf(),
            self.generator.phase == 0,
            self.generator.shape == WaveShape::Sine,
            self.filter.x1 == 0,
            self.filter.x2 == 0,
            self.filter.y1 == 0,
            self.filter.y2 == 0,
        ensures
            self.out_s() == 0,
    {
        reveal(Voice::out_s);
        if self.is_active {
            crate::trig::lemma_trig_quarter_points();
            assert(self.generator.wave_raw_s() == 0);
            lemma_div_of0(UNIT as int);
            assert(self.generator.out_s() == 0);
            assert(self.mix_in_s() == 0);
            self.filter.lemma_coeff_bounds();
            assert(self.filter.num_s(0) == 0);
            lemma_div_of0(self.filter.coeffs_s().3);
            assert(self.filter.out_s(0) == 0);
        }
    }

    /// True while this voice is sounding (including its Release tail).
    pub fn is_active(&self) -> (r: bool)
        ensures
            r == self.is_active,
    {
        self.is_active
    }

    pub fn set_wave_shape(&mut self, shape: WaveShape)
        requires
            old(self).wf(),
        ensures
            final(self).wf(),
            final(self).generator == (WaveGenerator { shape, ..old(self).generator }),
            *final(self) == (Voice { generator: final(self).generator, ..*old(self) }),
    {
        self.generator.set_wave_shape(shape);
    }

    /// Sets the envelope's ADSR parameters (clamped as `set_adsr` clamps).
    pub fn set_envelope(&mut self, attack: i64, decay: i64, sustain: i64, release: i64)
        requires
            old(self).wf(),
        ensures
            final(self).wf(),
            final(self).envelope.attack == clamp_s(attack as int, 0, crate::envelope::DUR_MAX as int),
            final(self).envelope.decay == clamp_s(decay as int, 0, crate::envelope::DUR_MAX as int),
            final(self).envelope.sustain == clamp_s(sustain as int, 0, UNIT as int),
            final(self).envelope.release == clamp_s(release as int, 0, crate::envelope::DUR_MAX as int),
            final(self).envelope.state == old(self).envelope.state,
            final(self).envelope.time == old(self).envelope.time,
            final(self).envelope.value == old(self).envelope.value,
            final(self).envelope.sample_rate == old(self).envelope.sample_rate,
            *final(self) == (Voice { envelope: final(self).envelope, ..*old(self) }),
    {
        self.envelope.set_adsr(attack, decay, sustain, release);
    }

    /// Sets cutoff, resonance and response type of the filter, with the
    /// filter's own clamping rules.
    pub fn set_filter(&mut self, cutoff: i64, resonance: i64, filter_type: FilterType)
        requires
            old(self).wf(),
        ensures
            final(self).wf(),
            final(self).filter.cutoff == {
                let raised: int = if cutoff < crate::filter::CUTOFF_MIN {
                    crate::filter::CUTOFF_MIN as int
                } else {
                    cutoff as int
                };
                let nyq: int = (old(self).filter.sample_rate as int)
                    * (crate::fixed::HALF_UNIT as int);
                if raised > nyq { nyq } else { raised }
            },
            final(self).filter.resonance == clamp_s(resonance as int,
                crate::filter::RES_MIN as int, crate::filter::RES_MAX as int),
            final(self).filter.filter_type == filter_type,
            final(self).filter == (Filter {
                cutoff: final(self).filter.cutoff,
                resonance: final(self).filter.resonance,
                filter_type,
                ..old(self).filter
            }),
            *final(self) == (Voice { filter: final(self).filter, ..*old(self) }),
    {
        self.filter.set_cutoff(cutoff);
        self.filter.set_resonance(resonance);
        self.filter.set_type(filter_type);
    }
}

} // verus!
