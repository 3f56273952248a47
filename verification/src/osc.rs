//! The oscillator: a phase accumulator driving one of six waveforms.
//!
//! The phase lives in Q16.16 turns and is renormalized into `[0, UNIT)` after
//! every advance.  Waveform values are Q16.16 samples; the saw wave follows
//! the centered-sawtooth formula `2 (p - floor(p + 1/2)) - 1`, which ranges
//! over `[-2, 1)`.  The noise shape draws from a deterministic 64-bit
//! linear congruential generator instead of an outside randomness source, so
//! the whole sample stream is reproducible.

use vstd::prelude::*;
use crate::fixed::{
    UNIT, HALF_UNIT, QUARTER_UNIT, tdiv, tdiv_s, emod, clamp, clamp_s, within,
    lemma_tdiv_in_range, lemma_tdiv_exact,
};
use crate::trig::{sin2pi, sin2pi_s, lemma_sin2pi_range};
use vstd::arithmetic::div_mod::lemma_div_multiples_vanish;

verus! {

/// Largest frequency magnitude the oscillator accepts, in Q16.16 Hz.
pub const FREQ_LIMIT: i64 = 0x4000_0000_0000;

/// Largest number of custom harmonics kept by [`WaveGenerator::set_custom_harmonics`].
pub const HARMONICS_LIMIT: usize = 4096;

/// Multiplier of the noise generator (Knuth's 64-bit linear congruential step).
pub const NOISE_MUL: u64 = 6364136223846793005;

/// Increment of the noise generator.
pub const NOISE_INC: u64 = 1442695040888963407;

/// Default state of the noise generator at construction.
pub const NOISE_SEED: u64 = 0x9E3779B97F4A7C15;

#[derive(Clone, Copy, Debug, PartialEq, Eq, Structural)]
pub enum WaveShape {
    Sine,
    Saw,
    Square,
    Triangle,
    Noise,
    Custom,
}

/// One waveform generator: a phase accumulator plus shape parameters.
pub struct WaveGenerator {
    /// Sample rate in Hz; at least 1.
    pub sample_rate: u32,
    /// Current phase in Q16.16 turns, always in `[0, UNIT)`.
    pub phase: i64,
    /// Frequency in Q16.16 Hz; may be zero or negative (degenerate but defined).
    pub frequency: i64,
    /// Output gain in Q16.16, in `[0, UNIT]`.
    pub amplitude: i64,
    pub shape: WaveShape,
    /// Per-harmonic weights for [`WaveShape::Custom`], each in `[-UNIT, UNIT]`.
    pub custom_harmonics: Vec<i64>,
    /// State of the deterministic noise generator.
    pub noise_state: u64,
}

impl WaveGenerator {
    /// Well-formedness of the oscillator state.
    pub open spec fn wf(self) -> bool {
        &&& 1 <= self.sample_rate
        &&& 0 <= self.phase < UNIT
        &&& within(self.frequency as int, FREQ_LIMIT as int)
        &&& 0 <= self.amplitude <= UNIT
        &&& self.custom_harmonics@.len() <= HARMONICS_LIMIT
        &&& forall|i: int| 0 <= i < self.custom_harmonics@.len()
            ==> within(#[trigger] self.custom_harmonics@[i] as int, UNIT as int)
    }

    pub fn new(sample_rate: u32) -> (r: WaveGenerator)
        requires
            1 <= sample_rate,
        ensures
            r.wf(),
            r.sample_rate == sample_rate,
            r.phase == 0,
            r.frequency == 440 * UNIT,
            r.amplitude == UNIT,
            r.shape == WaveShape::Sine,
            r.custom_harmonics@ =~= seq![UNIT, HALF_UNIT, QUARTER_UNIT, 8192i64],
            r.noise_state == NOISE_SEED,
    {
        WaveGenerator {
            sample_rate,
            phase: 0,
            frequency: 440 * UNIT,
            amplitude: UNIT,
            shape: WaveShape::Sine,
            // the default harmonic series 1, 1/2, 1/4, 1/8
            custom_harmonics: vec![UNIT, HALF_UNIT, QUARTER_UNIT, 8192i64],
            noise_state: NOISE_SEED,
        }
    }

    pub fn set_frequency(&mut self, freq: i64)
        ensures
            final(self).frequency == clamp_s(freq as int, -FREQ_LIMIT as int, FREQ_LIMIT as int),
            *final(self) == (WaveGenerator { frequency: final(self).frequency, ..*old(self) }),
            old(self).wf() ==> final(self).wf(),
    {
        self.frequency = clamp(freq, -FREQ_LIMIT, FREQ_LIMIT);
    }

    pub fn set_amplitude(&mut self, amp: i64)
        ensures
            final(self).amplitude == clamp_s(amp as int, 0, UNIT as int),
            *final(self) == (WaveGenerator { amplitude: final(self).amplitude, ..*old(self) }),
            old(self).wf() ==> final(self).wf(),
    {
        self.amplitude = clamp(amp, 0, UNIT);
    }

    pub fn set_wave_shape(&mut self, shape: WaveShape)
        ensures
            *final(self) == (WaveGenerator { shape, ..*old(self) }),
            old(self).wf() ==> final(self).wf(),
    {
        self.shape = shape;
    }

    /// Stores at most [`HARMONICS_LIMIT`] weights, each clamped into `[-UNIT, UNIT]`.
    pub fn set_custom_harmonics(&mut self, weights: &Vec<i64>)
        ensures
            final(self).custom_harmonics@.len()
                == if weights@.len() <= HARMONICS_LIMIT { weights@.len() } else { HARMONICS_LIMIT as nat },
            forall|j: int| 0 <= j < final(self).custom_harmonics@.len()
                ==> #[trigger] final(self).custom_harmonics@[j]
                    == clamp_s(weights@[j] as int, -UNIT as int, UNIT as int),
            *final(self) == (WaveGenerator {
                custom_harmonics: final(self).custom_harmonics, ..*old(self) }),
            old(self).wf() ==> final(self).wf(),
    {
        let n = if weights.len() <= HARMONICS_LIMIT { weights.len() } else { HARMONICS_LIMIT };
        let mut v: Vec<i64> = Vec::new();
        let mut i: usize = 0;
        while i < n
            invariant
                i <= n <= weights@.len(),
                n <= HARMONICS_LIMIT,
                v@.len() == i,
                forall|j: int| 0 <= j < i
                    ==> #[trigger] v@[j] == clamp_s(weights@[j] as int, -UNIT as int, UNIT as int),
            decreases n - i,
        {
            v.push(clamp(weights[i], -UNIT, UNIT));
            i += 1;
        }
        self.custom_harmonics = v;
    }

    /// One step of the noise generator.
    pub open spec fn noise_next_s(x: u64) -> u64 {
        x.wrapping_mul(NOISE_MUL).wrapping_add(NOISE_INC)
    }

    /// The noise sample drawn in a step starting from noise state `x`:
    /// uniform over `[-UNIT, UNIT]`.
    pub open spec fn noise_value_s(x: u64) -> int {
        ((Self::noise_next_s(x) >> 33) % 131073) as int - UNIT
    }

    /// Sum of the first `n` custom-harmonic terms at the given phase:
    /// harmonic `k` contributes `weight[k-1] * sin(2 pi * phase * k)`.
    pub open spec fn custom_sum_s(h: Seq<i64>, phase: int, n: int) -> int
        recommends
            n <= h.len(),
        decreases n,
    {
        if n <= 0 {
            0
        } else {
            Self::custom_sum_s(h, phase, n - 1)
                + tdiv_s(h[n - 1] * sin2pi_s(phase * n), UNIT as int)
        }
    }

    /// The custom waveform: the harmonic sum normalized by the harmonic count
    /// (zero when no harmonics are set).
    pub open spec fn custom_raw_s(self) -> int {
        let len = self.custom_harmonics@.len() as int;
        if len == 0 {
            0
        } else {
            tdiv_s(Self::custom_sum_s(self.custom_harmonics@, self.phase as int, len), len)
        }
    }

    /// The waveform value at the current phase, before the amplitude gain.
    pub open spec fn wave_raw_s(self) -> int {
        match self.shape {
            WaveShape::Sine => sin2pi_s(self.phase as int),
            WaveShape::Saw => if self.phase < HALF_UNIT {
                2 * self.phase - UNIT
            } else {
                2 * self.phase - 3 * UNIT
            },
            WaveShape::Square => if self.phase < HALF_UNIT { UNIT as int } else { -UNIT as int },
            WaveShape::Triangle => if self.phase < HALF_UNIT {
                4 * self.phase - UNIT
            } else {
                3 * UNIT - 4 * self.phase
            },
            WaveShape::Noise => Self::noise_value_s(self.noise_state),
            WaveShape::Custom => self.custom_raw_s(),
        }
    }

    /// The sample returned by [`WaveGenerator::generate_sample`].
    pub open spec fn out_s(self) -> int {
        tdiv_s(self.wave_raw_s() * self.amplitude, UNIT as int)
    }

    /// The phase after one advance: `phase + frequency / sample_rate`,
    /// renormalized into `[0, UNIT)`.
    pub open spec fn next_phase_s(self) -> int {
        (self.phase + tdiv_s(self.frequency as int, self.sample_rate as int)) % (UNIT as int)
    }

    /// The oscillator state after one sample.
    pub open spec fn step_s(self) -> WaveGenerator {
        WaveGenerator {
            phase: self.next_phase_s() as i64,
            noise_state: if self.shape == WaveShape::Noise {
                Self::noise_next_s(self.noise_state)
            } else {
                self.noise_state
            },
            ..self
        }
    }

    /// The harmonic sum of `n` bounded weights is bounded by `n * UNIT`.
    proof fn lemma_custom_sum_range(h: Seq<i64>, phase: int, n: int)
        requires
            0 <= n <= h.len(),
            forall|i: int| 0 <= i < h.len() ==> within(#[trigger] h[i] as int, UNIT as int),
        ensures
            within(Self::custom_sum_s(h, phase, n), n * (UNIT as int)),
        decreases n,
    {
        if n > 0 {
            Self::lemma_custom_sum_range(h, phase, n - 1);
            lemma_sin2pi_range(phase * n);
            crate::fixed::lemma_mul_within(h[n - 1] as int, sin2pi_s(phase * n),
                UNIT as int, UNIT as int);
            lemma_tdiv_in_range(h[n - 1] * sin2pi_s(phase * n),
                (UNIT as int) * (UNIT as int), UNIT as int);
            lemma_div_multiples_vanish(UNIT as int, UNIT as int);
            assert((n - 1) * (UNIT as int) + UNIT as int == n * (UNIT as int))
                by (nonlinear_arith);
        }
    }

    /// The raw waveform value stays within `[-2 UNIT, 2 UNIT]`.
    pub proof fn lemma_wave_raw_range(self)
        requires
            self.wf(),
        ensures
            within(self.wave_raw_s(), 2 * (UNIT as int)),
    {
        match self.shape {
            WaveShape::Sine => lemma_sin2pi_range(self.phase as int),
            WaveShape::Noise => {
                let nv = Self::noise_next_s(self.noise_state);
                assert((nv >> 33) % 131073 < 131073) by (bit_vector);
            },
            WaveShape::Custom => {
                let len = self.custom_harmonics@.len() as int;
                if len > 0 {
                    Self::lemma_custom_sum_range(
                        self.custom_harmonics@, self.phase as int, len);
                    lemma_tdiv_in_range(
                        Self::custom_sum_s(self.custom_harmonics@, self.phase as int, len),
                        len * (UNIT as int), len);
                    lemma_div_multiples_vanish(UNIT as int, len);
                }
            },
            _ => {},
        }
    }

    /// Produces one sample for the current phase and shape, then advances the
    /// phase by `frequency / sample_rate` and renormalizes it into `[0, UNIT)`.
    pub fn generate_sample(&mut self) -> (r: i64)
        requires
            old(self).wf(),
        ensures
            final(self).wf(),
            *final(self) == old(self).step_s(),
            r == old(self).out_s(),
            within(r as int, 2 * (UNIT as int)),
    {
        proof {
            self.lemma_wave_raw_range();
        }
        let raw: i64 = match self.shape {
            WaveShape::Sine => sin2pi(self.phase),
            WaveShape::Saw => {
                if self.phase < HALF_UNIT {
                    2 * self.phase - UNIT
                } else {
                    2 * self.phase - 3 * UNIT
                }
            },
            WaveShape::Square => {
                if self.phase < HALF_UNIT {
                    UNIT
                } else {
                    -UNIT
                }
            },
            WaveShape::Triangle => {
                if self.phase < HALF_UNIT {
                    4 * self.phase - UNIT
                } else {
                    3 * UNIT - 4 * self.phase
                }
            },
            WaveShape::Noise => {
                let ns = self.noise_state.wrapping_mul(NOISE_MUL).wrapping_add(NOISE_INC);
                self.noise_state = ns;
                proof {
                    assert((ns >> 33) % 131073 < 131073) by (bit_vector);
                }
                (((ns >> 33) % 131073) as i64) - UNIT
            },
            WaveShape::Custom => {
                let len = self.custom_harmonics.len();
                if len == 0 {
                    0
                } else {
                    let mut sum: i64 = 0;
                    let mut i: usize = 0;
                    while i < len
                        invariant
                            self.custom_harmonics@.len() == len,
                            len <= HARMONICS_LIMIT,
                            0 <= self.phase < UNIT,
                            forall|j: int| 0 <= j < len
                                ==> within(#[trigger] self.custom_harmonics@[j] as int,
                                    UNIT as int),
                            i <= len,
                            sum == Self::custom_sum_s(
                                self.custom_harmonics@, self.phase as int, i as int),
                            within(sum as int, (i as int) * (UNIT as int)),
                        decreases len - i,
                    {
                        let w = self.custom_harmonics[i];
                        let k = (i + 1) as i64;
                        proof {
                            crate::fixed::lemma_mul_within(self.phase as int, k as int,
                                UNIT as int, HARMONICS_LIMIT as int);
                            assert(0 <= self.phase * k) by (nonlinear_arith)
                                requires 0 <= self.phase && 0 <= k;
                        }
                        let s = sin2pi(self.phase * k);
                        proof {
                            crate::fixed::lemma_mul_within(w as int, s as int,
                                UNIT as int, UNIT as int);
                            lemma_tdiv_in_range(w * s, (UNIT as int) * (UNIT as int),
                                UNIT as int);
                            lemma_div_multiples_vanish(UNIT as int, UNIT as int);
                            assert((i as int) * (UNIT as int) + UNIT as int
                                == (i + 1) * (UNIT as int)) by (nonlinear_arith);
                        }
                        let term = tdiv(w * s, UNIT);
                        sum = sum + term;
                        i += 1;
                    }
                    proof {
                        lemma_tdiv_in_range(sum as int, (len as int) * (UNIT as int),
                            len as int);
                        lemma_div_multiples_vanish(UNIT as int, len as int);
                    }
                    tdiv(sum, len as i64)
                }
            },
        };
        proof {
            crate::fixed::lemma_mul_within(raw as int, self.amplitude as int,
                2 * (UNIT as int), UNIT as int);
            lemma_tdiv_in_range(raw * self.amplitude, 2 * (UNIT as int) * (UNIT as int),
                UNIT as int);
            lemma_div_multiples_vanish(2 * (UNIT as int), UNIT as int);
            assert(2 * (UNIT as int) * (UNIT as int) == (UNIT as int) * (2 * (UNIT as int)))
                by (nonlinear_arith);
        }
        let out = tdiv(raw * self.amplitude, UNIT);
        let inc = tdiv(self.frequency, self.sample_rate as i64);
        self.phase = emod(self.phase + inc, UNIT);
        out
    }

    /// `length` sequential samples; the phase carries across the buffer.
    pub fn generate_buffer(&mut self, length: usize) -> (r: Vec<i64>)
        requires
            old(self).wf(),
        ensures
            final(self).wf(),
            *final(self) == Self::run_s(*old(self), length as nat).0,
            r@.len() == length,
            forall|j: int| 0 <= j < length
                ==> #[trigger] r@[j] == Self::run_s(*old(self), length as nat).1[j],
    {
        let mut buf: Vec<i64> = Vec::new();
        let mut i: usize = 0;
        while i < length
            invariant
                i <= length,
                self.wf(),
                *self == Self::run_s(*old(self), i as nat).0,
                buf@.len() == i,
                forall|j: int| 0 <= j < i
                    ==> #[trigger] buf@[j] == Self::run_s(*old(self), i as nat).1[j],
            decreases length - i,
        {
            proof {
                Self::lemma_run_len(*old(self), i as nat);
                Self::lemma_run_prefix(*old(self), i as nat);
            }
            let s = self.generate_sample();
            buf.push(s);
            i += 1;
        }
        buf
    }

    /// The oscillator state and sample sequence after `n` sequential samples.
    pub open spec fn run_s(o: WaveGenerator, n: nat) -> (WaveGenerator, Seq<int>)
        decreases n,
    {
        if n == 0 {
            (o, Seq::empty())
        } else {
            let prev = Self::run_s(o, (n - 1) as nat);
            (prev.0.step_s(), prev.1.push(prev.0.out_s()))
        }
    }

    /// A run of `n + 1` samples extends a run of `n` samples.
    proof fn lemma_run_prefix(o: WaveGenerator, n: nat)
        ensures
            Self::run_s(o, n + 1).0 == Self::run_s(o, n).0.step_s(),
            Self::run_s(o, n + 1).1 == Self::run_s(o, n).1.push(Self::run_s(o, n).0.out_s()),
    {
    }

    /// A run of `n` samples produces `n` samples.
    pub proof fn lemma_run_len(o: WaveGenerator, n: nat)
        ensures
            Self::run_s(o, n).1.len() == n,
        decreases n,
    {
        if n > 0 {
            Self::lemma_run_len(o, (n - 1) as nat);
        }
    }
}

/// A standalone rendering of `length` samples of the given shape at the
/// given frequency, for waveform displays: a fresh generator, retuned and
/// reshaped, run for `length` samples.
pub fn generate_waveform_data(wave_shape: WaveShape, length: usize, frequency: i64,
    sample_rate: u32) -> (r: Vec<i64>)
    requires
        1 <= sample_rate,
    ensures
        r@.len() == length,
        (exists|g: WaveGenerator| {
            &&& #[trigger] g.wf()
            &&& g.sample_rate == sample_rate
            &&& g.phase == 0
            &&& g.frequency == clamp_s(frequency as int, -FREQ_LIMIT as int,
                FREQ_LIMIT as int)
            &&& g.amplitude == UNIT
            &&& g.shape == wave_shape
            &&& g.custom_harmonics@ =~= seq![UNIT, HALF_UNIT, QUARTER_UNIT, 8192i64]
            &&& g.noise_state == NOISE_SEED
            &&& forall|j: int| 0 <= j < length
                ==> #[trigger] r@[j] == WaveGenerator::run_s(g, length as nat).1[j]
        }),
{
    let mut generator = WaveGenerator::new(sample_rate);
    generator.set_frequency(frequency);
    generator.set_wave_shape(wave_shape);
    let ghost g0 = generator;
    let buf = generator.generate_buffer(length);
    proof {
        assert(g0.wf());
        assert(forall|j: int| 0 <= j < length
            ==> #[trigger] buf@[j] == WaveGenerator::run_s(g0, length as nat).1[j]);
    }
    buf
}

/// At the start of a cycle the sine wave crosses zero and the square wave
/// sits at the amplitude (`+1` scaled by the gain).
pub proof fn lemma_wave_at_phase_start(o: WaveGenerator)
    requires
        o.wf(),
        o.phase == 0,
    ensures
        o.shape == WaveShape::Sine ==> o.out_s() == 0,
        o.shape == WaveShape::Square ==> o.out_s() == o.amplitude,
{
    crate::trig::lemma_trig_quarter_points();
    if o.shape == WaveShape::Sine {
        assert(o.out_s() == tdiv_s(0, UNIT as int));
    }
    if o.shape == WaveShape::Square {
        lemma_tdiv_exact(o.amplitude as int, UNIT as int);
        assert((UNIT as int) * o.amplitude == o.amplitude * (UNIT as int))
            by (nonlinear_arith);
    }
}

} // verus!
