//! The resonant biquad filter with four response types.
//!
//! Coefficients follow the RBJ audio-EQ cookbook forms and are recomputed on
//! every call from cutoff, resonance and sample rate, in Q16.16 fixed point:
//! with `w` the cutoff as a fraction of the sample rate,
//! `sin_om = sin(2 pi w)`, `cos_om = cos(2 pi w)` and
//! `alpha = sin_om / (2 Q)`.  The recursion
//! `y = (b0 x + b1 x1 + b2 x2 - a1 y1 - a2 y2) / a0` keeps two past inputs
//! and outputs; each output saturates at `SAMPLE_LIMIT`, which keeps an
//! unstable setting defined instead of overflowing.

use vstd::prelude::*;
use crate::fixed::{
    UNIT, HALF_UNIT, QUARTER_UNIT, SAMPLE_LIMIT, tdiv, tdiv_s, clamp, clamp_s, within,
    lemma_tdiv_in_range, lemma_mul_within,
};
use crate::trig::{
    sin2pi, cos2pi, sin2pi_s, cos2pi_s, lemma_sin2pi_range, lemma_sin2pi_first_half_nonneg,
};
use vstd::arithmetic::div_mod::{
    lemma_div_pos_is_pos, lemma_div_multiples_vanish, lemma_small_mod,
};

verus! {

/// Smallest cutoff accepted by the setter: 20 Hz in Q16.16.
pub const CUTOFF_MIN: i64 = 1310720;

/// Smallest resonance: about 0.1 in Q16.16.
pub const RES_MIN: i64 = 6554;

/// Largest resonance: 40 in Q16.16.
pub const RES_MAX: i64 = 2621440;

/// Largest value `alpha` can take (`UNIT / (2 RES_MIN)` rounds to `5 UNIT`).
pub const ALPHA_LIMIT: i64 = 327680;

/// Bound on every filter coefficient (`6 UNIT`).
pub const COEF_LIMIT: i64 = 393216;

#[derive(Clone, Copy, Debug, PartialEq, Eq, Structural)]
pub enum FilterType {
    LowPass,
    HighPass,
    BandPass,
    Notch,
}

/// The biquad filter state.
#[derive(Clone, Copy, Debug)]
pub struct Filter {
    /// Cutoff in Q16.16 Hz, in `[1, sample_rate * HALF_UNIT]`.
    pub cutoff: i64,
    /// Resonance (Q), in `[RES_MIN, RES_MAX]`.
    pub resonance: i64,
    pub filter_type: FilterType,
    /// The two previous inputs.
    pub x1: i64,
    pub x2: i64,
    /// The two previous outputs.
    pub y1: i64,
    pub y2: i64,
    /// Sample rate in Hz; at least 1.
    pub sample_rate: u32,
}

impl Filter {
    /// Well-formedness: parameters in range and bounded history.
    pub open spec fn wf(self) -> bool {
        &&& 1 <= self.sample_rate
        &&& 1 <= self.cutoff <= (self.sample_rate as int) * (HALF_UNIT as int)
        &&& RES_MIN <= self.resonance <= RES_MAX
        &&& within(self.x1 as int, SAMPLE_LIMIT as int)
        &&& within(self.x2 as int, SAMPLE_LIMIT as int)
        &&& within(self.y1 as int, SAMPLE_LIMIT as int)
        &&& within(self.y2 as int, SAMPLE_LIMIT as int)
    }

    /// The cutoff as a fraction of the sample rate, in Q16.16 turns.
    pub open spec fn cut_frac_s(self) -> int {
        tdiv_s(self.cutoff as int, self.sample_rate as int)
    }

    pub open spec fn sin_om_s(self) -> int {
        sin2pi_s(self.cut_frac_s())
    }

    pub open spec fn cos_om_s(self) -> int {
        cos2pi_s(self.cut_frac_s())
    }

    pub open spec fn alpha_s(self) -> int {
        tdiv_s(self.sin_om_s() * UNIT, 2 * self.resonance)
    }

    /// The six cookbook coefficients `(b0, b1, b2, a0, a1, a2)` for the
    /// current response type.
    pub open spec fn coeffs_s(self) -> (int, int, int, int, int, int) {
        let cos_om = self.cos_om_s();
        let alpha = self.alpha_s();
        let a0 = UNIT + alpha;
        let a1 = -2 * cos_om;
        let a2 = UNIT - alpha;
        match self.filter_type {
            FilterType::LowPass => (
                tdiv_s(UNIT - cos_om, 2), UNIT - cos_om, tdiv_s(UNIT - cos_om, 2),
                a0, a1, a2,
            ),
            FilterType::HighPass => (
                tdiv_s(UNIT + cos_om, 2), -(UNIT + cos_om), tdiv_s(UNIT + cos_om, 2),
                a0, a1, a2,
            ),
            FilterType::BandPass => (alpha, 0, -alpha, a0, a1, a2),
            FilterType::Notch => (UNIT as int, -2 * cos_om, UNIT as int, a0, a1, a2),
        }
    }

    /// The recursion numerator for input `x`.
    pub open spec fn num_s(self, x: int) -> int {
        let (b0, b1, b2, a0, a1, a2) = self.coeffs_s();
        b0 * x + b1 * self.x1 + b2 * self.x2 - a1 * self.y1 - a2 * self.y2
    }

    /// The output for input `x`: the recursion value, saturated.
    pub open spec fn out_s(self, x: int) -> int {
        clamp_s(tdiv_s(self.num_s(x), self.coeffs_s().3), -SAMPLE_LIMIT as int,
            SAMPLE_LIMIT as int)
    }

    /// The filter state after processing input `x`: history shifted by one.
    pub open spec fn step_s(self, x: int) -> Filter {
        Filter {
            x1: x as i64,
            x2: self.x1,
            y1: self.out_s(x) as i64,
            y2: self.y1,
            ..self
        }
    }

    /// Ranges of the derived quantities, from the parameter ranges.
    pub proof fn lemma_coeff_bounds(self)
        requires
            self.wf(),
        ensures
            0 <= self.cut_frac_s() <= HALF_UNIT,
            0 <= self.sin_om_s() <= UNIT,
            within(self.cos_om_s(), UNIT as int),
            0 <= self.alpha_s() <= ALPHA_LIMIT,
            within(self.coeffs_s().0, COEF_LIMIT as int),
            within(self.coeffs_s().1, COEF_LIMIT as int),
            within(self.coeffs_s().2, COEF_LIMIT as int),
            UNIT <= self.coeffs_s().3 <= UNIT + ALPHA_LIMIT,
            within(self.coeffs_s().4, COEF_LIMIT as int),
            within(self.coeffs_s().5, COEF_LIMIT as int),
    {
        let sr = self.sample_rate as int;
        lemma_div_pos_is_pos(self.cutoff as int, sr);
        lemma_tdiv_in_range(self.cutoff as int, sr * (HALF_UNIT as int), sr);
        lemma_div_multiples_vanish(HALF_UNIT as int, sr);
        lemma_small_mod(self.cut_frac_s() as nat, UNIT as nat);
        lemma_sin2pi_first_half_nonneg(self.cut_frac_s());
        lemma_sin2pi_range(self.cut_frac_s() + QUARTER_UNIT);
        let d = 2 * self.resonance;
        assert(0 <= self.sin_om_s() * UNIT <= 327680 * d) by (nonlinear_arith)
            requires 0 <= self.sin_om_s() <= 65536 && d >= 13108;
        lemma_div_pos_is_pos(self.sin_om_s() * UNIT, d);
        lemma_tdiv_in_range(self.sin_om_s() * UNIT, 327680 * d, d);
        lemma_div_multiples_vanish(327680, d);
        assert(327680 * d == d * 327680) by (nonlinear_arith);
        lemma_tdiv_in_range(UNIT - self.cos_om_s(), 2 * (UNIT as int), 2);
        lemma_tdiv_in_range(UNIT + self.cos_om_s(), 2 * (UNIT as int), 2);
    }

    pub fn new(sample_rate: u32) -> (r: Filter)
        requires
            1 <= sample_rate,
        ensures
            r.wf(),
            r.sample_rate == sample_rate,
            r.cutoff == if 1000 * UNIT <= (sample_rate as int) * (HALF_UNIT as int) {
                (1000 * UNIT) as int
            } else {
                (sample_rate as int) * (HALF_UNIT as int)
            },
            r.resonance == UNIT,
            r.filter_type == FilterType::LowPass,
            r.x1 == 0 && r.x2 == 0 && r.y1 == 0 && r.y2 == 0,
    {
        let nyquist: i64 = (sample_rate as i64) * HALF_UNIT;
        let cutoff = if 1000 * UNIT <= nyquist {
            1000 * UNIT
        } else {
            nyquist
        };
        Filter {
            cutoff,
            resonance: UNIT,
            filter_type: FilterType::LowPass,
            x1: 0,
            x2: 0,
            y1: 0,
            y2: 0,
            sample_rate,
        }
    }

    /// Raises the cutoff to at least 20 Hz, then caps it at the Nyquist
    /// frequency; the cap is applied last, so at very low sample rates the
    /// Nyquist cap wins over the 20 Hz floor.
    pub fn set_cutoff(&mut self, cutoff: i64)
        requires
            old(self).wf(),
        ensures
            final(self).wf(),
            final(self).cutoff == {
                let raised: int = if cutoff < CUTOFF_MIN { CUTOFF_MIN as int } else {
                    cutoff as int };
                let nyq: int = (old(self).sample_rate as int) * (HALF_UNIT as int);
                if raised > nyq { nyq } else { raised }
            },
            *final(self) == (Filter { cutoff: final(self).cutoff, ..*old(self) }),
    {
        let nyquist: i64 = (self.sample_rate as i64) * HALF_UNIT;
        let raised = if cutoff < CUTOFF_MIN { CUTOFF_MIN } else { cutoff };
        self.cutoff = if raised > nyquist { nyquist } else { raised };
    }

    /// Clamps the resonance into `[RES_MIN, RES_MAX]` (about 0.1 to 40).
    pub fn set_resonance(&mut self, resonance: i64)
        requires
            old(self).wf(),
        ensures
            final(self).wf(),
            final(self).resonance
                == clamp_s(resonance as int, RES_MIN as int, RES_MAX as int),
            *final(self) == (Filter { resonance: final(self).resonance, ..*old(self) }),
    {
        self.resonance = clamp(resonance, RES_MIN, RES_MAX);
    }

    pub fn set_type(&mut self, filter_type: FilterType)
        requires
            old(self).wf(),
        ensures
            final(self).wf(),
            *final(self) == (Filter { filter_type, ..*old(self) }),
    {
        self.filter_type = filter_type;
    }

    /// Filters one input sample through the biquad recursion and shifts the
    /// history by one.
    pub fn process(&mut self, input: i64) -> (r: i64)
        requires
            old(self).wf(),
            within(input as int, SAMPLE_LIMIT as int),
        ensures
            final(self).wf(),
            *final(self) == old(self).step_s(input as int),
            r == old(self).out_s(input as int),
            within(r as int, SAMPLE_LIMIT as int),
    {
        proof {
            self.lemma_coeff_bounds();
        }
        let fr = tdiv(self.cutoff, self.sample_rate as i64);
        let sin_omega = sin2pi(fr);
        let cos_omega = cos2pi(fr);
        let alpha = tdiv(sin_omega * UNIT, 2 * self.resonance);
        let a0 = UNIT + alpha;
        let a1 = -2 * cos_omega;
        let a2 = UNIT - alpha;
        let (b0, b1, b2) = match self.filter_type {
            FilterType::LowPass => {
                let b0 = tdiv(UNIT - cos_omega, 2);
                (b0, UNIT - cos_omega, b0)
            },
            FilterType::HighPass => {
                let b0 = tdiv(UNIT + cos_omega, 2);
                (b0, -(UNIT + cos_omega), b0)
            },
            FilterType::BandPass => (alpha, 0, -alpha),
            FilterType::Notch => (UNIT, -2 * cos_omega, UNIT),
        };
        proof {
            lemma_mul_within(b0 as int, input as int, COEF_LIMIT as int, SAMPLE_LIMIT as int);
            lemma_mul_within(b1 as int, self.x1 as int, COEF_LIMIT as int, SAMPLE_LIMIT as int);
            lemma_mul_within(b2 as int, self.x2 as int, COEF_LIMIT as int, SAMPLE_LIMIT as int);
            lemma_mul_within(a1 as int, self.y1 as int, COEF_LIMIT as int, SAMPLE_LIMIT as int);
            lemma_mul_within(a2 as int, self.y2 as int, COEF_LIMIT as int, SAMPLE_LIMIT as int);
        }
        let num = b0 * input + b1 * self.x1 + b2 * self.x2 - a1 * self.y1 - a2 * self.y2;
        let y = tdiv(num, a0);
        let out = clamp(y, -SAMPLE_LIMIT, SAMPLE_LIMIT);
        self.x2 = self.x1;
        self.x1 = input;
        self.y2 = self.y1;
        self.y1 = out;
        out
    }

    /// The filter state and output sequence after processing each input in
    /// turn (the history carries across elements).
    pub open spec fn run_s(f: Filter, xs: Seq<i64>) -> (Filter, Seq<int>)
        decreases xs.len(),
    {
        if xs.len() == 0 {
            (f, Seq::empty())
        } else {
            let prev = Self::run_s(f, xs.drop_last());
            (prev.0.step_s(xs.last() as int), prev.1.push(prev.0.out_s(xs.last() as int)))
        }
    }

    /// A run produces as many outputs as it is given inputs.
    pub proof fn lemma_run_len(f: Filter, xs: Seq<i64>)
        ensures
            Self::run_s(f, xs).1.len() == xs.len(),
        decreases xs.len(),
    {
        if xs.len() > 0 {
            Self::lemma_run_len(f, xs.drop_last());
        }
    }

    /// Extending the input by one element extends the run by one step.
    proof fn lemma_run_snoc(f: Filter, xs: Seq<i64>, i: int)
        requires
            0 <= i < xs.len(),
        ensures
            Self::run_s(f, xs.take(i + 1)).0
                == Self::run_s(f, xs.take(i)).0.step_s(xs[i] as int),
            Self::run_s(f, xs.take(i + 1)).1
                == Self::run_s(f, xs.take(i)).1.push(
                    Self::run_s(f, xs.take(i)).0.out_s(xs[i] as int)),
    {
        assert(xs.take(i + 1).drop_last() =~= xs.take(i));
        assert(xs.take(i + 1).last() == xs[i]);
    }

    /// Filters every element of the buffer in place, sequentially.
    pub fn process_buffer(&mut self, buffer: &mut Vec<i64>)
        requires
            old(self).wf(),
            forall|j: int| 0 <= j < old(buffer)@.len()
                ==> within(#[trigger] old(buffer)@[j] as int, SAMPLE_LIMIT as int),
        ensures
            final(self).wf(),
            *final(self) == Self::run_s(*old(self), old(buffer)@).0,
            final(buffer)@.len() == old(buffer)@.len(),
            forall|j: int| 0 <= j < old(buffer)@.len()
                ==> #[trigger] final(buffer)@[j]
                    == Self::run_s(*old(self), old(buffer)@).1[j],
    {
        let ghost xs0 = buffer@;
        let ghost f0 = *old(self);
        let len = buffer.len();
        let mut i: usize = 0;
        while i < len
            invariant
                i <= len == xs0.len(),
                self.wf(),
                buffer@.len() == len,
                forall|j: int| i <= j < len ==> #[trigger] buffer@[j] == xs0[j],
                forall|j: int| 0 <= j < len
                    ==> within(#[trigger] xs0[j] as int, SAMPLE_LIMIT as int),
                *self == Self::run_s(f0, xs0.take(i as int)).0,
                forall|j: int| 0 <= j < i
                    ==> #[trigger] buffer@[j] == Self::run_s(f0, xs0.take(i as int)).1[j],
            decreases len - i,
        {
            proof {
                Self::lemma_run_len(f0, xs0.take(i as int));
                Self::lemma_run_snoc(f0, xs0, i as int);
            }
            let x = buffer[i];
            let y = self.process(x);
            buffer.set(i, y);
            i += 1;
        }
        proof {
            assert(xs0.take(len as int) =~= xs0);
        }
    }
}

} // verus!
