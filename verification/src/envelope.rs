//! The ADSR envelope: a five-state machine producing a gain in `[0, UNIT]`.
//!
//! Durations are Q16.16 seconds; internally each stage is measured in whole
//! sample ticks, `ticks = max(1, duration * sample_rate / UNIT)`.  The one-tick
//! floor stands in for the division-by-zero guard the envelope needs when a
//! duration of zero is requested.  Stage ramps are linear, evaluated once per
//! generated sample; the elapsed time advances at the end of every call.

use vstd::prelude::*;
use crate::fixed::{UNIT, tdiv, tdiv_s, clamp, clamp_s, within, lemma_tdiv_in_range};
use vstd::arithmetic::div_mod::lemma_div_multiples_vanish;

verus! {

/// Largest duration a stage accepts: 3600 seconds in Q16.16.
pub const DUR_MAX: i64 = 235929600;

/// Largest possible stage length in ticks (`DUR_MAX` seconds at the largest
/// sample rate fits below this).
pub const TICKS_LIMIT: u64 = 0x1000_0000_0000;

#[derive(Clone, Copy, Debug, PartialEq, Eq, Structural)]
pub enum EnvelopeState {
    Idle,
    Attack,
    Decay,
    Sustain,
    Release,
}

/// The ADSR envelope generator.
#[derive(Clone, Copy, Debug)]
pub struct EnvelopeGenerator {
    /// Attack duration in Q16.16 seconds, in `[0, DUR_MAX]`.
    pub attack: i64,
    /// Decay duration in Q16.16 seconds, in `[0, DUR_MAX]`.
    pub decay: i64,
    /// Sustain level in Q16.16, in `[0, UNIT]`.
    pub sustain: i64,
    /// Release duration in Q16.16 seconds, in `[0, DUR_MAX]`.
    pub release: i64,
    /// Sample rate in Hz; at least 1.
    pub sample_rate: u32,
    pub state: EnvelopeState,
    /// Ticks elapsed since the current state was entered.
    pub time: u64,
    /// The last produced value, always in `[0, UNIT]`.
    pub value: i64,
    /// Attack duration in ticks, kept equal to `ticks_of_s(attack, sample_rate)`.
    pub attack_ticks: u64,
    /// Decay duration in ticks.
    pub decay_ticks: u64,
    /// Release duration in ticks.
    pub release_ticks: u64,
}

/// A stage duration converted to sample ticks, floored at one tick.
pub open spec fn ticks_of_s(d: i64, sr: u32) -> int {
    let t = tdiv_s(d * sr, UNIT as int);
    if t < 1 {
        1
    } else {
        t
    }
}

/// A tick count advanced by one, saturating (unreachably) at the top.
pub open spec fn bump_s(t: u64) -> u64 {
    if t == u64::MAX {
        t
    } else {
        (t + 1) as u64
    }
}

/// The converted duration lies in `[1, TICKS_LIMIT]`.
pub proof fn lemma_ticks_of_bounds(d: i64, sr: u32)
    requires
        0 <= d <= DUR_MAX,
        1 <= sr,
    ensures
        1 <= ticks_of_s(d, sr) <= TICKS_LIMIT,
{
    crate::fixed::lemma_mul_within(d as int, sr as int, DUR_MAX as int, 4294967295);
    assert(235929600int * 4294967295 <= 0x1000_0000_0000int * 65536) by (nonlinear_arith);
    lemma_tdiv_in_range(d * sr, (TICKS_LIMIT as int) * (UNIT as int), UNIT as int);
    lemma_div_multiples_vanish(TICKS_LIMIT as int, UNIT as int);
    assert((TICKS_LIMIT as int) * (UNIT as int) == (UNIT as int) * (TICKS_LIMIT as int))
        by (nonlinear_arith);
}

/// A stage duration converted to ticks on machine integers.
fn ticks_of(d: i64, sr: u32) -> (t: u64)
    requires
        0 <= d <= DUR_MAX,
        1 <= sr,
    ensures
        t == ticks_of_s(d, sr),
        1 <= t <= TICKS_LIMIT,
{
    proof {
        crate::fixed::lemma_mul_within(d as int, sr as int, DUR_MAX as int, 4294967295);
        assert(235929600int * 4294967295 <= 0x7fff_ffff_ffff_ffffint) by (nonlinear_arith);
        assert(0 <= (d as int) * (sr as int)) by (nonlinear_arith)
            requires 0 <= d && 0 <= sr;
        lemma_ticks_of_bounds(d, sr);
    }
    let p: i64 = d * (sr as i64);
    let t0: i64 = tdiv(p, UNIT);
    if t0 < 1 {
        1
    } else {
        t0 as u64
    }
}

impl EnvelopeGenerator {
    /// Well-formedness: parameters in range, tick fields in sync with the
    /// stored durations, last value in `[0, UNIT]`.
    pub open spec fn wf(self) -> bool {
        &&& 1 <= self.sample_rate
        &&& 0 <= self.attack <= DUR_MAX
        &&& 0 <= self.decay <= DUR_MAX
        &&& 0 <= self.sustain <= UNIT
        &&& 0 <= self.release <= DUR_MAX
        &&& self.attack_ticks == ticks_of_s(self.attack, self.sample_rate)
        &&& self.decay_ticks == ticks_of_s(self.decay, self.sample_rate)
        &&& self.release_ticks == ticks_of_s(self.release, self.sample_rate)
        &&& 0 <= self.value <= UNIT
    }

    /// The envelope after one sample, following the stage rules:
    /// Attack ramps 0 to 1, Decay ramps 1 to the sustain level, Sustain holds,
    /// Release ramps the sustain level to 0 and then settles at Idle.
    pub open spec fn tick_s(self) -> EnvelopeGenerator {
        match self.state {
            EnvelopeState::Idle => EnvelopeGenerator {
                value: 0, time: bump_s(self.time), ..self },
            EnvelopeState::Attack => {
                if self.time >= self.attack_ticks {
                    EnvelopeGenerator {
                        state: EnvelopeState::Decay, time: 1, value: UNIT, ..self }
                } else {
                    EnvelopeGenerator {
                        value: tdiv_s(self.time * UNIT, self.attack_ticks as int) as i64,
                        time: bump_s(self.time), ..self }
                }
            },
            EnvelopeState::Decay => {
                if self.time >= self.decay_ticks {
                    EnvelopeGenerator {
                        state: EnvelopeState::Sustain, value: self.sustain,
                        time: bump_s(self.time), ..self }
                } else {
                    EnvelopeGenerator {
                        value: (UNIT - tdiv_s((UNIT - self.sustain) * self.time,
                            self.decay_ticks as int)) as i64,
                        time: bump_s(self.time), ..self }
                }
            },
            EnvelopeState::Sustain => EnvelopeGenerator {
                value: self.sustain, time: bump_s(self.time), ..self },
            EnvelopeState::Release => {
                if self.time >= self.release_ticks {
                    EnvelopeGenerator {
                        state: EnvelopeState::Idle, value: 0,
                        time: bump_s(self.time), ..self }
                } else {
                    let v = tdiv_s(self.sustain * (self.release_ticks - self.time),
                        self.release_ticks as int);
                    if v <= 0 {
                        EnvelopeGenerator {
                            state: EnvelopeState::Idle, value: 0,
                            time: bump_s(self.time), ..self }
                    } else {
                        EnvelopeGenerator {
                            value: v as i64, time: bump_s(self.time), ..self }
                    }
                }
            },
        }
    }

    /// The envelope after `n` samples.
    pub open spec fn ticks_n_s(self, n: nat) -> EnvelopeGenerator
        decreases n,
    {
        if n == 0 {
            self
        } else {
            self.tick_s().ticks_n_s((n - 1) as nat)
        }
    }

    /// One sample step keeps the envelope well formed, and the produced value
    /// stays in `[0, UNIT]`.
    pub proof fn lemma_tick_wf(self)
        requires
            self.wf(),
        ensures
            self.tick_s().wf(),
            0 <= self.tick_s().value <= UNIT,
    {
        lemma_ticks_of_bounds(self.attack, self.sample_rate);
        lemma_ticks_of_bounds(self.decay, self.sample_rate);
        lemma_ticks_of_bounds(self.release, self.sample_rate);
        let at = self.attack_ticks as int;
        let dt = self.decay_ticks as int;
        let rt = self.release_ticks as int;
        match self.state {
            EnvelopeState::Attack => {
                if self.time < self.attack_ticks {
                    assert((self.time as int) * UNIT <= at * UNIT) by (nonlinear_arith)
                        requires 0 <= self.time < at && 0 < UNIT;
                    lemma_tdiv_in_range(self.time * UNIT, at * (UNIT as int), at);
                    lemma_div_multiples_vanish(UNIT as int, at);
                }
            },
            EnvelopeState::Decay => {
                if self.time < self.decay_ticks {
                    let c = UNIT - self.sustain;
                    assert(0 <= c * self.time <= c * dt) by (nonlinear_arith)
                        requires 0 <= c && 0 <= self.time <= dt;
                    assert(c * dt <= 65536 * dt) by (nonlinear_arith)
                        requires 0 <= c <= 65536 && 0 <= dt;
                    lemma_tdiv_in_range(c * self.time, c * dt, dt);
                    lemma_tdiv_in_range(c * self.time, 65536 * dt, dt);
                    assert(c * dt == dt * c) by (nonlinear_arith);
                    lemma_div_multiples_vanish(c, dt);
                }
            },
            EnvelopeState::Release => {
                if self.time < self.release_ticks {
                    let left = rt - self.time;
                    assert(0 <= self.sustain * left <= self.sustain * rt) by (nonlinear_arith)
                        requires 0 <= self.sustain && 0 <= left <= rt;
                    assert(self.sustain * rt <= 65536 * rt) by (nonlinear_arith)
                        requires 0 <= self.sustain <= 65536 && 0 <= rt;
                    lemma_tdiv_in_range(self.sustain * left, self.sustain * rt, rt);
                    lemma_tdiv_in_range(self.sustain * left, 65536 * rt, rt);
                    assert(self.sustain * rt == rt * self.sustain) by (nonlinear_arith);
                    lemma_div_multiples_vanish(self.sustain as int, rt);
                }
            },
            _ => {},
        }
    }

    pub fn new(sample_rate: u32) -> (r: EnvelopeGenerator)
        requires
            1 <= sample_rate,
        ensures
            r.wf(),
            r.sample_rate == sample_rate,
            r.attack == 6554,
            r.decay == 13107,
            r.sustain == 45875,
            r.release == 32768,
            r.state == EnvelopeState::Idle,
            r.time == 0,
            r.value == 0,
    {
        EnvelopeGenerator {
            // the defaults 0.1, 0.2, 0.7, 0.5 rounded to Q16.16
            attack: 6554,
            decay: 13107,
            sustain: 45875,
            release: 32768,
            sample_rate,
            state: EnvelopeState::Idle,
            time: 0,
            value: 0,
            attack_ticks: ticks_of(6554, sample_rate),
            decay_ticks: ticks_of(13107, sample_rate),
            release_ticks: ticks_of(32768, sample_rate),
        }
    }

    /// Sets the four ADSR parameters; durations clamp into `[0, DUR_MAX]`
    /// and the sustain level into `[0, UNIT]`.
    pub fn set_adsr(&mut self, attack: i64, decay: i64, sustain: i64, release: i64)
        requires
            old(self).wf(),
        ensures
            final(self).wf(),
            final(self).attack == clamp_s(attack as int, 0, DUR_MAX as int),
            final(self).decay == clamp_s(decay as int, 0, DUR_MAX as int),
            final(self).sustain == clamp_s(sustain as int, 0, UNIT as int),
            final(self).release == clamp_s(release as int, 0, DUR_MAX as int),
            final(self).state == old(self).state,
            final(self).time == old(self).time,
            final(self).value == old(self).value,
            final(self).sample_rate == old(self).sample_rate,
    {
        self.attack = clamp(attack, 0, DUR_MAX);
        self.decay = clamp(decay, 0, DUR_MAX);
        self.sustain = clamp(sustain, 0, UNIT);
        self.release = clamp(release, 0, DUR_MAX);
        self.attack_ticks = ticks_of(self.attack, self.sample_rate);
        self.decay_ticks = ticks_of(self.decay, self.sample_rate);
        self.release_ticks = ticks_of(self.release, self.sample_rate);
    }

    /// Forces the Attack stage from any state (re-trigger behavior).
    pub fn note_on(&mut self)
        ensures
            *final(self) == (EnvelopeGenerator {
                state: EnvelopeState::Attack, time: 0, ..*old(self) }),
            old(self).wf() ==> final(self).wf(),
    {
        self.state = EnvelopeState::Attack;
        self.time = 0;
    }

    /// Forces the Release stage from any state, including Idle.
    pub fn note_off(&mut self)
        ensures
            *final(self) == (EnvelopeGenerator {
                state: EnvelopeState::Release, time: 0, ..*old(self) }),
            old(self).wf() ==> final(self).wf(),
    {
        self.state = EnvelopeState::Release;
        self.time = 0;
    }

    /// Produces the next envelope value.  The result is always in `[0, UNIT]`,
    /// whatever sequence of `note_on` and `note_off` calls preceded it.
    pub fn get_value(&mut self) -> (r: i64)
        requires
            old(self).wf(),
        ensures
            final(self).wf(),
            *final(self) == old(self).tick_s(),
            r == final(self).value,
            0 <= r <= UNIT,
    {
        proof {
            self.lemma_tick_wf();
            lemma_ticks_of_bounds(self.attack, self.sample_rate);
            lemma_ticks_of_bounds(self.decay, self.sample_rate);
            lemma_ticks_of_bounds(self.release, self.sample_rate);
        }
        match self.state {
            EnvelopeState::Idle => {
                self.value = 0;
            },
            EnvelopeState::Attack => {
                if self.time >= self.attack_ticks {
                    self.state = EnvelopeState::Decay;
                    self.time = 0;
                    self.value = UNIT;
                } else {
                    self.value = tdiv((self.time as i64) * UNIT, self.attack_ticks as i64);
                }
            },
            EnvelopeState::Decay => {
                if self.time >= self.decay_ticks {
                    self.state = EnvelopeState::Sustain;
                    self.value = self.sustain;
                } else {
                    proof {
                        crate::fixed::lemma_mul_within((UNIT - self.sustain) as int,
                            self.time as int, UNIT as int, TICKS_LIMIT as int);
                    }
                    let amount = tdiv((UNIT - self.sustain) * (self.time as i64),
                        self.decay_ticks as i64);
                    self.value = UNIT - amount;
                }
            },
            EnvelopeState::Sustain => {
                self.value = self.sustain;
            },
            EnvelopeState::Release => {
                if self.time >= self.release_ticks {
                    self.state = EnvelopeState::Idle;
                    self.value = 0;
                } else {
                    proof {
                        crate::fixed::lemma_mul_within(self.sustain as int,
                            (self.release_ticks - self.time) as int,
                            UNIT as int, TICKS_LIMIT as int);
                    }
                    let v = tdiv(self.sustain * ((self.release_ticks - self.time) as i64),
                        self.release_ticks as i64);
                    if v <= 0 {
                        self.state = EnvelopeState::Idle;
                        self.value = 0;
                    } else {
                        self.value = v;
                    }
                }
            },
        }
        if self.time < u64::MAX {
            self.time = self.time + 1;
        }
        self.value
    }

    /// True while the envelope is in any stage but Idle; this flag alone
    /// drives the owning voice's lifecycle.
    pub fn is_active(&self) -> (r: bool)
        ensures
            r == (self.state != EnvelopeState::Idle),
    {
        match self.state {
            EnvelopeState::Idle => false,
            _ => true,
        }
    }
}

/// An Idle envelope stays Idle under sample steps, producing 0.
pub proof fn lemma_idle_stays(e: EnvelopeGenerator, n: nat)
    requires
        e.wf(),
        e.state == EnvelopeState::Idle,
    ensures
        e.ticks_n_s(n).wf(),
        e.ticks_n_s(n).state == EnvelopeState::Idle,
        n > 0 ==> e.ticks_n_s(n).value == 0,
    decreases n,
{
    if n > 0 {
        e.lemma_tick_wf();
        lemma_idle_stays(e.tick_s(), (n - 1) as nat);
    }
}

/// From the Release stage the envelope settles at Idle with value 0 once the
/// remaining release time has elapsed, and never sooner than the stage rules
/// allow.
pub proof fn lemma_release_reaches_idle(e: EnvelopeGenerator, n: nat)
    requires
        e.wf(),
        e.state == EnvelopeState::Release,
        1 <= n,
        n > e.release_ticks - e.time,
    ensures
        e.ticks_n_s(n).wf(),
        e.ticks_n_s(n).state == EnvelopeState::Idle,
        e.ticks_n_s(n).value == 0,
    decreases n,
{
    lemma_ticks_of_bounds(e.release, e.sample_rate);
    e.lemma_tick_wf();
    let e1 = e.tick_s();
    if e1.state == EnvelopeState::Idle {
        if n == 1 {
        } else {
            lemma_idle_stays(e1, (n - 1) as nat);
        }
    } else {
        assert(e1.state == EnvelopeState::Release && e1.time == e.time + 1);
        lemma_release_reaches_idle(e1, (n - 1) as nat);
    }
}

/// Releasing an envelope is idempotent in effect: `note_off` puts the
/// envelope in Release even when it is already Idle, and after the release
/// time has elapsed it is Idle again with value 0; every value produced on
/// the way lies in `[0, UNIT]` (see `get_value`).
pub proof fn lemma_note_off_settles(e: EnvelopeGenerator, n: nat)
    requires
        e.wf(),
        n > e.release_ticks,
    ensures
        (EnvelopeGenerator { state: EnvelopeState::Release, time: 0, ..e }).ticks_n_s(n).state
            == EnvelopeState::Idle,
        (EnvelopeGenerator { state: EnvelopeState::Release, time: 0, ..e }).ticks_n_s(n).value
            == 0,
{
    let r = EnvelopeGenerator { state: EnvelopeState::Release, time: 0, ..e };
    lemma_release_reaches_idle(r, n);
}

} // verus!
