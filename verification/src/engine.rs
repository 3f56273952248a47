//! The polyphonic engine: a fixed pool of voices, note allocation with
//! stealing, mixing with loudness-compensating normalization, a master
//! volume, and a passive plugin registry.
//!
//! Allocation scans the pool in order for the first inactive voice and, when
//! every voice is sounding, steals voice 0 — a deliberately simple,
//! deterministic policy.  The mixed sum of the active voices is divided by
//! `sqrt(active_count)` (in Q16.16, by the exact integer square root) and
//! scaled by the master volume.

use vstd::prelude::*;
use crate::fixed::{
    UNIT, SAMPLE_LIMIT, tdiv, tdiv_s, clamp, clamp_s, within, isqrt, is_isqrt, isqrt_s,
    lemma_isqrt_unique, lemma_isqrt_exists, lemma_tdiv_exact, lemma_tdiv_denom,
    lemma_mul_within,
};
use vstd::arithmetic::div_mod::lemma_div_of0;
use crate::osc::WaveShape;
use crate::envelope::EnvelopeGenerator;
use crate::filter::FilterType;
use crate::voice::Voice;
use crate::plugin::AudioPlugin;

verus! {

/// Largest voice-pool size the engine accepts.
pub const VOICES_LIMIT: usize = 4096;

/// The default master volume: 0.8 in Q16.16.
pub const DEFAULT_MASTER_VOLUME: i64 = 52429;

/// The index of the first inactive voice at or after `i`, or the pool size
/// when every voice is active.
pub open spec fn first_inactive_s(vs: Seq<Voice>, i: int) -> int
    decreases vs.len() - i,
{
    if i < 0 || i >= vs.len() {
        vs.len() as int
    } else if !vs[i].is_active {
        i
    } else {
        first_inactive_s(vs, i + 1)
    }
}

/// The voice a `note_on` lands on: the first inactive voice, or voice 0
/// (stolen) when the pool is exhausted.
pub open spec fn alloc_index_s(vs: Seq<Voice>) -> int {
    if first_inactive_s(vs, 0) < vs.len() {
        first_inactive_s(vs, 0)
    } else {
        0
    }
}

/// The first active voice at or after `i` sounding `note`, or the pool size.
pub open spec fn find_note_s(vs: Seq<Voice>, note: u8, i: int) -> int
    decreases vs.len() - i,
{
    if i < 0 || i >= vs.len() {
        vs.len() as int
    } else if vs[i].is_active && vs[i].note == note {
        i
    } else {
        find_note_s(vs, note, i + 1)
    }
}

/// The sum of the samples the first `n` voices contribute (inactive voices
/// contribute nothing).
pub open spec fn mix_sum_s(vs: Seq<Voice>, n: int) -> int
    decreases n,
{
    if n <= 0 {
        0
    } else {
        mix_sum_s(vs, n - 1) + if vs[n - 1].is_active { vs[n - 1].out_s() } else { 0 }
    }
}

/// How many of the first `n` voices are active.
pub open spec fn active_count_s(vs: Seq<Voice>, n: int) -> int
    decreases n,
{
    if n <= 0 {
        0
    } else {
        active_count_s(vs, n - 1) + if vs[n - 1].is_active { 1int } else { 0 }
    }
}

/// The loudness-compensating normalization: the voice sum divided by
/// `sqrt(count)` in Q16.16 (a sum over zero voices passes unchanged).
pub open spec fn normalize_s(sum: int, count: int) -> int {
    if count <= 0 {
        sum
    } else {
        tdiv_s(sum * UNIT, isqrt_s(count * (UNIT as int) * (UNIT as int)))
    }
}

/// One engine output sample for the given pool state: the normalized voice
/// sum scaled by the master volume.
#[verifier::opaque]
pub open spec fn mix_out_s(vs: Seq<Voice>, master: int) -> int {
    tdiv_s(normalize_s(mix_sum_s(vs, vs.len() as int), active_count_s(vs, vs.len() as int))
        * master, UNIT as int)
}

/// Every voice stepped by one sample.
pub open spec fn step_all_s(vs: Seq<Voice>) -> Seq<Voice> {
    vs.map_values(|v: Voice| v.step_s())
}

/// The pool and the output samples after `n` sequential engine samples.
pub open spec fn engine_run_s(vs: Seq<Voice>, master: int, n: nat) -> (Seq<Voice>, Seq<int>)
    decreases n,
{
    if n == 0 {
        (vs, Seq::empty())
    } else {
        let prev = engine_run_s(vs, master, (n - 1) as nat);
        (step_all_s(prev.0), prev.1.push(mix_out_s(prev.0, master)))
    }
}

/// The main synthesizer engine.
pub struct AudioSynthesizer {
    /// Sample rate in Hz; at least 1.
    pub sample_rate: u32,
    /// The fixed voice pool; its length is `max_voices` for the engine's
    /// whole lifetime.
    pub voices: Vec<Voice>,
    pub max_voices: usize,
    /// Master volume in Q16.16, in `[0, UNIT]`.
    pub master_volume: i64,
    /// Registered plugin descriptors, unique by id, in insertion order.
    pub plugins: Vec<AudioPlugin>,
}

/// The first plugin at or after `i` whose id is `id`, or the list length.
pub open spec fn find_plugin_s(ps: Seq<AudioPlugin>, id: Seq<char>, i: int) -> int
    decreases ps.len() - i,
{
    if i < 0 || i >= ps.len() {
        ps.len() as int
    } else if ps[i].id@ == id {
        i
    } else {
        find_plugin_s(ps, id, i + 1)
    }
}

impl AudioSynthesizer {
    /// Well-formedness: the pool has its fixed size and every voice is well
    /// formed.
    pub open spec fn wf(self) -> bool {
        &&& 1 <= self.sample_rate
        &&& 1 <= self.max_voices <= VOICES_LIMIT
        &&& self.voices@.len() == self.max_voices
        &&& 0 <= self.master_volume <= UNIT
        &&& forall|i: int| 0 <= i < self.voices@.len() ==> (#[trigger] self.voices@[i]).wf()
    }

    pub fn new(sample_rate: u32, max_voices: usize) -> (r: AudioSynthesizer)
        requires
            1 <= sample_rate,
            1 <= max_voices <= VOICES_LIMIT,
        ensures
            r.wf(),
            r.sample_rate == sample_rate,
            r.max_voices == max_voices,
            r.voices@.len() == max_voices,
            r.master_volume == DEFAULT_MASTER_VOLUME,
            r.plugins@.len() == 0,
            forall|i: int| 0 <= i < max_voices ==> !(#[trigger] r.voices@[i]).is_active,
            forall|i: int| 0 <= i < max_voices
                ==> (#[trigger] r.voices@[i]).is_initial(sample_rate),
    {
        let mut voices: Vec<Voice> = Vec::new();
        let mut i: usize = 0;
        while i < max_voices
            invariant
                i <= max_voices,
                1 <= sample_rate,
                voices@.len() == i,
                forall|j: int| 0 <= j < i ==> (#[trigger] voices@[j]).wf(),
                forall|j: int| 0 <= j < i ==> !(#[trigger] voices@[j]).is_active,
                forall|j: int| 0 <= j < i
                    ==> (#[trigger] voices@[j]).is_initial(sample_rate),
            decreases max_voices - i,
        {
            voices.push(Voice::new(sample_rate));
            i += 1;
        }
        AudioSynthesizer {
            sample_rate,
            voices,
            max_voices,
            master_volume: DEFAULT_MASTER_VOLUME,
            plugins: Vec::new(),
        }
    }

    /// The index `note_on` will use: first inactive voice, else 0.
    fn find_free_voice(&self) -> (idx: usize)
        requires
            self.wf(),
        ensures
            idx == alloc_index_s(self.voices@),
            idx < self.voices@.len(),
    {
        let len = self.voices.len();
        let mut i: usize = 0;
        while i < len
            invariant
                i <= len == self.voices@.len(),
                forall|j: int| 0 <= j < i ==> (#[trigger] self.voices@[j]).is_active,
                first_inactive_s(self.voices@, 0) == first_inactive_s(self.voices@, i as int),
            decreases len - i,
        {
            if !self.voices[i].is_active() {
                return i;
            }
            i += 1;
        }
        0
    }

    /// Starts `note` on the first inactive voice, stealing voice 0 when the
    /// whole pool is sounding.
    pub fn note_on(&mut self, note: u8, velocity: i64)
        requires
            old(self).wf(),
        ensures
            final(self).wf(),
            final(self).voices@ == old(self).voices@.update(
                alloc_index_s(old(self).voices@),
                old(self).voices@[alloc_index_s(old(self).voices@)].note_on_s(note, velocity)),
            final(self).sample_rate == old(self).sample_rate,
            final(self).max_voices == old(self).max_voices,
            final(self).master_volume == old(self).master_volume,
            final(self).plugins@ == old(self).plugins@,
    {
        let idx = self.find_free_voice();
        let v = &mut self.voices[idx];
        v.note_on(note, velocity);
    }

    /// Releases the first active voice sounding `note`; at most one voice is
    /// released even when several share the note.
    pub fn note_off(&mut self, note: u8)
        requires
            old(self).wf(),
        ensures
            final(self).wf(),
            ({
                let j = find_note_s(old(self).voices@, note, 0);
                if j < old(self).voices@.len() {
                    final(self).voices@ == old(self).voices@.update(
                        j, old(self).voices@[j].note_off_s())
                } else {
                    final(self).voices@ == old(self).voices@
                }
            }),
            final(self).sample_rate == old(self).sample_rate,
            final(self).max_voices == old(self).max_voices,
            final(self).master_volume == old(self).master_volume,
            final(self).plugins@ == old(self).plugins@,
    {
        let len = self.voices.len();
        let mut i: usize = 0;
        while i < len
            invariant
                *self == *old(self),
                old(self).wf(),
                i <= len == self.voices@.len(),
                forall|j: int| 0 <= j < i
                    ==> !((#[trigger] old(self).voices@[j]).is_active
                        && old(self).voices@[j].note == note),
                find_note_s(old(self).voices@, note, 0)
                    == find_note_s(old(self).voices@, note, i as int),
            decreases len - i,
        {
            let hit = self.voices[i].is_active() && self.voices[i].note == note;
            if hit {
                proof {
                    assert(find_note_s(old(self).voices@, note, i as int) == i as int);
                }
                proof {
                    assert(old(self).voices@[i as int].wf());
                }
                let v = &mut self.voices[i];
                v.note_off();
                return;
            }
            i += 1;
        }
        proof {
            assert(find_note_s(old(self).voices@, note, len as int) == len as int);
        }
    }

    /// Releases every voice unconditionally.
    pub fn all_notes_off(&mut self)
        requires
            old(self).wf(),
        ensures
            final(self).wf(),
            final(self).voices@.len() == old(self).voices@.len(),
            forall|i: int| 0 <= i < old(self).voices@.len()
                ==> final(self).voices@[i] == (#[trigger] old(self).voices@[i]).note_off_s(),
            final(self).sample_rate == old(self).sample_rate,
            final(self).max_voices == old(self).max_voices,
            final(self).master_volume == old(self).master_volume,
            final(self).plugins@ == old(self).plugins@,
    {
        let len = self.voices.len();
        let mut i: usize = 0;
        while i < len
            invariant
                old(self).wf(),
                i <= len == self.voices@.len() == old(self).voices@.len(),
                forall|j: int| 0 <= j < len ==> (#[trigger] self.voices@[j]).wf(),
                forall|j: int| i <= j < len
                    ==> self.voices@[j] == (#[trigger] old(self).voices@[j]),
                forall|j: int| 0 <= j < i
                    ==> self.voices@[j] == (#[trigger] old(self).voices@[j]).note_off_s(),
                self.sample_rate == old(self).sample_rate,
                self.max_voices == old(self).max_voices,
                self.master_volume == old(self).master_volume,
                self.plugins@ == old(self).plugins@,
            decreases len - i,
        {
            let v = &mut self.voices[i];
            v.note_off();
            i += 1;
        }
    }

    /// Produces one output sample: sums the active voices, divides by
    /// `sqrt(active_count)` when any voice is active, and applies the master
    /// volume.
    pub fn generate_sample(&mut self) -> (r: i64)
        requires
            old(self).wf(),
        ensures
            final(self).wf(),
            final(self).voices@.len() == old(self).voices@.len(),
            forall|i: int| 0 <= i < old(self).voices@.len()
                ==> final(self).voices@[i] == (#[trigger] old(self).voices@[i]).step_s(),
            r == mix_out_s(old(self).voices@, old(self).master_volume as int),
            final(self).sample_rate == old(self).sample_rate,
            final(self).max_voices == old(self).max_voices,
            final(self).master_volume == old(self).master_volume,
            final(self).plugins@ == old(self).plugins@,
    {
        let len = self.voices.len();
        let mut sum: i64 = 0;
        let mut active_voices: usize = 0;
        let mut i: usize = 0;
        while i < len
            invariant
                old(self).wf(),
                i <= len == self.voices@.len() == old(self).voices@.len(),
                forall|j: int| i <= j < len
                    ==> self.voices@[j] == (#[trigger] old(self).voices@[j]),
                forall|j: int| 0 <= j < i
                    ==> self.voices@[j] == (#[trigger] old(self).voices@[j]).step_s(),
                forall|j: int| 0 <= j < len ==> (#[trigger] self.voices@[j]).wf(),
                sum == mix_sum_s(old(self).voices@, i as int),
                active_voices == active_count_s(old(self).voices@, i as int),
                active_voices <= i,
                within(sum as int, (i as int) * (SAMPLE_LIMIT as int)),
                self.sample_rate == old(self).sample_rate,
                self.max_voices == old(self).max_voices,
                self.master_volume == old(self).master_volume,
                self.plugins@ == old(self).plugins@,
            decreases len - i,
        {
            let v = &mut self.voices[i];
            if v.is_active() {
                let s = v.generate_sample();
                sum = sum + s;
                active_voices = active_voices + 1;
            } else {
                proof {
                    v.lemma_inactive_step();
                }
            }
            i += 1;
        }
        let ghost vs0 = old(self).voices@;
        let ghost count = active_count_s(vs0, len as int);
        if active_voices > 0 {
            let x: u64 = (active_voices as u64) * 4294967296u64;
            let root = isqrt(x);
            proof {
                assert(is_isqrt(x as int, isqrt_s(x as int))) by {
                    assert(is_isqrt(x as int, root as int));
                }
                lemma_isqrt_unique(x as int, root as int, isqrt_s(x as int));
                assert((x as int) == count * (UNIT as int) * (UNIT as int)) by (nonlinear_arith)
                    requires x == count * 4294967296 && UNIT == 65536;
                assert((root as int) * (root as int) <= x as int);
                assert((UNIT as int) * (UNIT as int) <= x as int) by (nonlinear_arith)
                    requires x == count * 4294967296 && 1 <= count && UNIT == 65536;
                assert(UNIT <= root) by (nonlinear_arith)
                    requires (UNIT as int) * (UNIT as int) <= (x as int)
                        && (x as int) < (root + 1) * (root + 1) && 0 <= root;
                assert(root as int <= 0x40_0000) by (nonlinear_arith)
                    requires (root as int) * (root as int) <= x && x <= 0x1000_0000_0000
                        && 0 <= root;
                lemma_tdiv_denom(sum * UNIT, (VOICES_LIMIT as int) * (SAMPLE_LIMIT as int),
                    root as int, UNIT as int);
                assert(within(sum * UNIT,
                    ((VOICES_LIMIT as int) * (SAMPLE_LIMIT as int)) * (UNIT as int)))
                    by (nonlinear_arith)
                    requires within(sum as int, (len as int) * (SAMPLE_LIMIT as int))
                        && len <= VOICES_LIMIT && UNIT == 65536 && SAMPLE_LIMIT == 268435456
                        && VOICES_LIMIT == 4096;
            }
            sum = tdiv(sum * UNIT, root as i64);
        }
        proof {
            reveal(mix_out_s);
            lemma_mul_within(sum as int, self.master_volume as int,
                (VOICES_LIMIT as int) * (SAMPLE_LIMIT as int), UNIT as int);
            lemma_tdiv_denom(sum * self.master_volume,
                (VOICES_LIMIT as int) * (SAMPLE_LIMIT as int), UNIT as int, UNIT as int);
            assert(within(sum * self.master_volume,
                ((VOICES_LIMIT as int) * (SAMPLE_LIMIT as int)) * (UNIT as int)))
                by (nonlinear_arith)
                requires within(sum as int, (VOICES_LIMIT as int) * (SAMPLE_LIMIT as int))
                    && 0 <= self.master_volume <= UNIT && UNIT == 65536;
        }
        tdiv(sum * self.master_volume, UNIT)
    }

    /// `length` sequential output samples.
    #[verifier::rlimit(100)]
    pub fn generate_buffer(&mut self, length: usize) -> (r: Vec<i64>)
        requires
            old(self).wf(),
        ensures
            final(self).wf(),
            final(self).voices@
                == engine_run_s(old(self).voices@, old(self).master_volume as int,
                    length as nat).0,
            r@.len() == length,
            forall|j: int| 0 <= j < length
                ==> #[trigger] r@[j] == engine_run_s(old(self).voices@,
                    old(self).master_volume as int, length as nat).1[j],
            final(self).sample_rate == old(self).sample_rate,
            final(self).max_voices == old(self).max_voices,
            final(self).master_volume == old(self).master_volume,
            final(self).plugins@ == old(self).plugins@,
    {
        let ghost vs0 = old(self).voices@;
        let ghost master = old(self).master_volume as int;
        let mut buf: Vec<i64> = Vec::new();
        let mut i: usize = 0;
        while i < length
            invariant
                i <= length,
                self.wf(),
                vs0 == old(self).voices@,
                master == old(self).master_volume as int,
                self.voices@ == engine_run_s(vs0, master, i as nat).0,
                buf@.len() == i,
                forall|j: int| 0 <= j < i
                    ==> #[trigger] buf@[j] == engine_run_s(vs0, master, i as nat).1[j],
                self.sample_rate == old(self).sample_rate,
                self.max_voices == old(self).max_voices,
                self.master_volume == old(self).master_volume,
                self.plugins@ == old(self).plugins@,
            decreases length - i,
        {
            proof {
                lemma_engine_run_len(vs0, master, i as nat);
            }
            let ghost before = self.voices@;
            let s = self.generate_sample();
            proof {
                lemma_buffer_step(vs0, master, i as nat, before, self.voices@, s as int);
            }
            buf.push(s);
            i += 1;
        }
        buf
    }

    /// Clamps the master volume into `[0, UNIT]`.
    pub fn set_master_volume(&mut self, volume: i64)
        requires
            old(self).wf(),
        ensures
            final(self).wf(),
            final(self).master_volume == clamp_s(volume as int, 0, UNIT as int),
            *final(self) == (AudioSynthesizer {
                master_volume: final(self).master_volume, ..*old(self) }),
    {
        self.master_volume = clamp(volume, 0, UNIT);
    }

    /// Broadcasts one wave shape to every voice (the engine is monotimbral).
    pub fn set_global_wave_shape(&mut self, shape: WaveShape)
        requires
            old(self).wf(),
        ensures
            final(self).wf(),
            final(self).voices@.len() == old(self).voices@.len(),
            forall|i: int| 0 <= i < old(self).voices@.len()
                ==> final(self).voices@[i].generator
                    == (crate::osc::WaveGenerator {
                        shape, ..(#[trigger] old(self).voices@[i]).generator }),
            forall|i: int| 0 <= i < old(self).voices@.len()
                ==> final(self).voices@[i]
                    == (Voice { generator: final(self).voices@[i].generator,
                        ..(#[trigger] old(self).voices@[i]) }),
            final(self).sample_rate == old(self).sample_rate,
            final(self).max_voices == old(self).max_voices,
            final(self).master_volume == old(self).master_volume,
            final(self).plugins@ == old(self).plugins@,
    {
        let len = self.voices.len();
        let mut i: usize = 0;
        while i < len
            invariant
                old(self).wf(),
                i <= len == self.voices@.len() == old(self).voices@.len(),
                forall|j: int| 0 <= j < len ==> (#[trigger] self.voices@[j]).wf(),
                forall|j: int| i <= j < len
                    ==> self.voices@[j] == (#[trigger] old(self).voices@[j]),
                forall|j: int| 0 <= j < i
                    ==> self.voices@[j]
                        == (Voice { generator: crate::osc::WaveGenerator {
                                shape, ..(#[trigger] old(self).voices@[j]).generator },
                            ..old(self).voices@[j] }),
                self.sample_rate == old(self).sample_rate,
                self.max_voices == old(self).max_voices,
                self.master_volume == old(self).master_volume,
                self.plugins@ == old(self).plugins@,
            decreases len - i,
        {
            let v = &mut self.voices[i];
            v.set_wave_shape(shape);
            i += 1;
        }
    }

    /// Broadcasts one ADSR setting to every voice.
    pub fn set_global_envelope(&mut self, attack: i64, decay: i64, sustain: i64, release: i64)
        requires
            old(self).wf(),
        ensures
            final(self).wf(),
            final(self).voices@.len() == old(self).voices@.len(),
            forall|i: int| 0 <= i < old(self).voices@.len()
                ==> ({
                    let e = (#[trigger] final(self).voices@[i]).envelope;
                    &&& e.attack == clamp_s(attack as int, 0, crate::envelope::DUR_MAX as int)
                    &&& e.decay == clamp_s(decay as int, 0, crate::envelope::DUR_MAX as int)
                    &&& e.sustain == clamp_s(sustain as int, 0, UNIT as int)
                    &&& e.release == clamp_s(release as int, 0, crate::envelope::DUR_MAX as int)
                    &&& e.state == old(self).voices@[i].envelope.state
                    &&& e.time == old(self).voices@[i].envelope.time
                    &&& e.value == old(self).voices@[i].envelope.value
                    &&& e.sample_rate == old(self).voices@[i].envelope.sample_rate
                    &&& final(self).voices@[i] == (Voice {
                        envelope: e, ..old(self).voices@[i] })
                }),
            final(self).sample_rate == old(self).sample_rate,
            final(self).max_voices == old(self).max_voices,
            final(self).master_volume == old(self).master_volume,
            final(self).plugins@ == old(self).plugins@,
    {
        let len = self.voices.len();
        let mut i: usize = 0;
        while i < len
            invariant
                old(self).wf(),
                i <= len == self.voices@.len() == old(self).voices@.len(),
                forall|j: int| 0 <= j < len ==> (#[trigger] self.voices@[j]).wf(),
                forall|j: int| i <= j < len
                    ==> self.voices@[j] == (#[trigger] old(self).voices@[j]),
                forall|j: int| 0 <= j < i
                    ==> ({
                        let e = (#[trigger] self.voices@[j]).envelope;
                        &&& e.attack == clamp_s(attack as int, 0,
                            crate::envelope::DUR_MAX as int)
                        &&& e.decay == clamp_s(decay as int, 0,
                            crate::envelope::DUR_MAX as int)
                        &&& e.sustain == clamp_s(sustain as int, 0, UNIT as int)
                        &&& e.release == clamp_s(release as int, 0,
                            crate::envelope::DUR_MAX as int)
                        &&& e.state == old(self).voices@[j].envelope.state
                        &&& e.time == old(self).voices@[j].envelope.time
                        &&& e.value == old(self).voices@[j].envelope.value
                        &&& e.sample_rate == old(self).voices@[j].envelope.sample_rate
                        &&& self.voices@[j] == (Voice {
                            envelope: e, ..old(self).voices@[j] })
                    }),
                self.sample_rate == old(self).sample_rate,
                self.max_voices == old(self).max_voices,
                self.master_volume == old(self).master_volume,
                self.plugins@ == old(self).plugins@,
            decreases len - i,
        {
            let v = &mut self.voices[i];
            v.set_envelope(attack, decay, sustain, release);
            i += 1;
        }
    }

    /// Broadcasts one filter setting to every voice.
    pub fn set_global_filter(&mut self, cutoff: i64, resonance: i64, filter_type: FilterType)
        requires
            old(self).wf(),
        ensures
            final(self).wf(),
            final(self).voices@.len() == old(self).voices@.len(),
            forall|i: int| 0 <= i < old(self).voices@.len()
                ==> ({
                    let f = (#[trigger] final(self).voices@[i]).filter;
                    &&& f.cutoff == {
                        let raised: int = if cutoff < crate::filter::CUTOFF_MIN {
                            crate::filter::CUTOFF_MIN as int
                        } else {
                            cutoff as int
                        };
                        let nyq: int = (old(self).voices@[i].filter.sample_rate as int)
                            * (crate::fixed::HALF_UNIT as int);
                        if raised > nyq { nyq } else { raised }
                    }
                    &&& f.resonance == clamp_s(resonance as int,
                        crate::filter::RES_MIN as int, crate::filter::RES_MAX as int)
                    &&& f.filter_type == filter_type
                    &&& f == (crate::filter::Filter {
                        cutoff: f.cutoff, resonance: f.resonance, filter_type,
                        ..old(self).voices@[i].filter })
                    &&& final(self).voices@[i] == (Voice {
                        filter: f, ..old(self).voices@[i] })
                }),
            final(self).sample_rate == old(self).sample_rate,
            final(self).max_voices == old(self).max_voices,
            final(self).master_volume == old(self).master_volume,
            final(self).plugins@ == old(self).plugins@,
    {
        let len = self.voices.len();
        let mut i: usize = 0;
        while i < len
            invariant
                old(self).wf(),
                i <= len == self.voices@.len() == old(self).voices@.len(),
                forall|j: int| 0 <= j < len ==> (#[trigger] self.voices@[j]).wf(),
                forall|j: int| i <= j < len
                    ==> self.voices@[j] == (#[trigger] old(self).voices@[j]),
                forall|j: int| 0 <= j < i
                    ==> ({
                        let f = (#[trigger] self.voices@[j]).filter;
                        &&& f == (crate::filter::Filter {
                            cutoff: f.cutoff, resonance: f.resonance, filter_type,
                            ..old(self).voices@[j].filter })
                        &&& f.cutoff == {
                            let raised: int = if cutoff < crate::filter::CUTOFF_MIN {
                                crate::filter::CUTOFF_MIN as int
                            } else {
                                cutoff as int
                            };
                            let nyq: int = (old(self).voices@[j].filter.sample_rate as int)
                                * (crate::fixed::HALF_UNIT as int);
                            if raised > nyq { nyq } else { raised }
                        }
                        &&& f.resonance == clamp_s(resonance as int,
                            crate::filter::RES_MIN as int, crate::filter::RES_MAX as int)
                        &&& self.voices@[j] == (Voice {
                            filter: f, ..old(self).voices@[j] })
                    }),
                self.sample_rate == old(self).sample_rate,
                self.max_voices == old(self).max_voices,
                self.master_volume == old(self).master_volume,
                self.plugins@ == old(self).plugins@,
            decreases len - i,
        {
            let v = &mut self.voices[i];
            v.set_filter(cutoff, resonance, filter_type);
            i += 1;
        }
    }

    /// Registers a plugin descriptor, overwriting any one with the same id.
    pub fn add_plugin(&mut self, plugin: AudioPlugin)
        requires
            old(self).wf(),
        ensures
            final(self).wf(),
            ({
                let ps = old(self).plugins@;
                let j = find_plugin_s(ps, plugin.id@, 0);
                if j < ps.len() {
                    &&& final(self).plugins@.len() == ps.len()
                    &&& final(self).plugins@[j] == plugin
                    &&& forall|k: int| 0 <= k < ps.len() && k != j
                        ==> final(self).plugins@[k] == ps[k]
                } else {
                    &&& final(self).plugins@.len() == ps.len() + 1
                    &&& final(self).plugins@[ps.len() as int] == plugin
                    &&& forall|k: int| 0 <= k < ps.len()
                        ==> final(self).plugins@[k] == ps[k]
                }
            }),
            final(self).voices@ == old(self).voices@,
            final(self).sample_rate == old(self).sample_rate,
            final(self).max_voices == old(self).max_voices,
            final(self).master_volume == old(self).master_volume,
    {
        let len = self.plugins.len();
        let mut i: usize = 0;
        while i < len
            invariant
                *self == *old(self),
                old(self).wf(),
                i <= len == old(self).plugins@.len(),
                forall|j: int| 0 <= j < i ==> (#[trigger] old(self).plugins@[j]).id@
                    != plugin.id@,
                find_plugin_s(old(self).plugins@, plugin.id@, 0)
                    == find_plugin_s(old(self).plugins@, plugin.id@, i as int),
            decreases len - i,
        {
            let same = crate::plugin::plugin_id_eq(&self.plugins[i], &plugin);
            if same {
                proof {
                    assert(find_plugin_s(old(self).plugins@, plugin.id@, i as int)
                        == i as int);
                }
                self.plugins.set(i, plugin);
                return;
            }
            i += 1;
        }
        self.plugins.push(plugin);
    }

    /// How many voices are currently sounding.
    pub fn get_active_voice_count(&self) -> (r: usize)
        requires
            self.wf(),
        ensures
            r == active_count_s(self.voices@, self.voices@.len() as int),
    {
        let len = self.voices.len();
        let mut count: usize = 0;
        let mut i: usize = 0;
        while i < len
            invariant
                i <= len == self.voices@.len(),
                count == active_count_s(self.voices@, i as int),
                count <= i,
            decreases len - i,
        {
            if self.voices[i].is_active() {
                count = count + 1;
            }
            i += 1;
        }
        count
    }
}

/// One engine sample extends an engine run by one step.
proof fn lemma_buffer_step(vs0: Seq<Voice>, master: int, i: nat, cur: Seq<Voice>,
    stepped: Seq<Voice>, s: int)
    requires
        cur == engine_run_s(vs0, master, i).0,
        stepped.len() == cur.len(),
        forall|j: int| 0 <= j < cur.len() ==> stepped[j] == (#[trigger] cur[j]).step_s(),
        s == mix_out_s(cur, master),
    ensures
        engine_run_s(vs0, master, i + 1).0 == stepped,
        engine_run_s(vs0, master, i + 1).1 == engine_run_s(vs0, master, i).1.push(s),
        engine_run_s(vs0, master, i).1.len() == i,
        engine_run_s(vs0, master, i + 1).1.len() == i + 1,
{
    lemma_engine_run_len(vs0, master, i);
    lemma_engine_run_len(vs0, master, i + 1);
    assert(stepped =~= step_all_s(cur));
}

/// An engine run produces one output per step.
pub proof fn lemma_engine_run_len(vs: Seq<Voice>, master: int, n: nat)
    ensures
        engine_run_s(vs, master, n).1.len() == n,
    decreases n,
{
    if n > 0 {
        lemma_engine_run_len(vs, master, (n - 1) as nat);
    }
}

/// Voice stealing: in a pool of one voice, every `note_on` lands on voice 0,
/// whether or not that voice is still sounding — so a second `note_on`
/// overwrites the first one's note and velocity.
pub proof fn lemma_voice_stealing(vs: Seq<Voice>)
    requires
        vs.len() == 1,
    ensures
        alloc_index_s(vs) == 0,
{
    if vs[0].is_active {
        assert(first_inactive_s(vs, 1) == 1);
    }
}

/// Mixing normalization: with `k * k` active voices all producing the same
/// sample `s`, the engine's pre-master-volume output is exactly
/// `k * s == s * sqrt(k * k)`, because the integer square root of
/// `k * k * UNIT * UNIT` is exact; at full master volume the output sample
/// is that same value.
pub proof fn lemma_mixing_normalization(vs: Seq<Voice>, s: int, k: int)
    requires
        1 <= k,
        vs.len() == k * k,
        forall|i: int| 0 <= i < vs.len() ==> (#[trigger] vs[i]).is_active,
        forall|i: int| 0 <= i < vs.len() ==> (#[trigger] vs[i]).out_s() == s,
    ensures
        normalize_s(mix_sum_s(vs, vs.len() as int), active_count_s(vs, vs.len() as int))
            == k * s,
        mix_out_s(vs, UNIT as int) == k * s,
{
    reveal(mix_out_s);
    let n = vs.len() as int;
    lemma_uniform_mix(vs, s, n);
    assert(mix_sum_s(vs, n) == n * s);
    assert(active_count_s(vs, n) == n);
    let x = n * (UNIT as int) * (UNIT as int);
    assert(is_isqrt(x, k * UNIT)) by (nonlinear_arith)
        requires 1 <= k && x == (k * k) * 65536 * 65536 && UNIT == 65536;
    assert(is_isqrt(x, isqrt_s(x)));
    lemma_isqrt_unique(x, k * UNIT, isqrt_s(x));
    assert((n * s) * (UNIT as int) == (k * s) * (k * (UNIT as int))) by (nonlinear_arith)
        requires n == k * k;
    assert(1 <= k * (UNIT as int)) by (nonlinear_arith)
        requires 1 <= k && UNIT == 65536;
    lemma_tdiv_exact(k * s, k * (UNIT as int));
    assert(k * (UNIT as int) == (k * UNIT) as int) by (nonlinear_arith);
    lemma_tdiv_exact(k * s, UNIT as int);
    assert((k * s) * (UNIT as int) == k * s * 65536) by (nonlinear_arith);
}

/// An engine whose voices all contribute silence outputs silence, whatever
/// the active count and the master volume: summing zeros, normalizing and
/// scaling all give zero.  With `lemma_silent_at_cycle_start` this settles
/// the first sample of a fresh engine after a `note_on`: it is exactly 0.
pub proof fn lemma_silent_mix(vs: Seq<Voice>, master: int)
    requires
        forall|i: int| 0 <= i < vs.len() ==> (#[trigger] vs[i]).out_s() == 0,
    ensures
        mix_out_s(vs, master) == 0,
{
    reveal(mix_out_s);
    let n = vs.len() as int;
    lemma_zero_mix(vs, n);
    let count = active_count_s(vs, n);
    if count > 0 {
        let x = count * (UNIT as int) * (UNIT as int);
        assert((UNIT as int) * (UNIT as int) <= x) by (nonlinear_arith)
            requires 1 <= count && UNIT == 65536 && x == count * 65536 * 65536;
        lemma_isqrt_exists(x);
        let s = isqrt_s(x);
        if s == 0 {
            assert((s + 1) * (s + 1) == 1) by (nonlinear_arith)
                requires s == 0;
            assert(false);
        }
        lemma_div_of0(s);
    }
    let nz = normalize_s(mix_sum_s(vs, n), count);
    assert(nz == 0);
    assert(nz * master == 0) by (nonlinear_arith)
        requires nz == 0;
    lemma_div_of0(UNIT as int);
}

/// A pool of silent voices sums to zero, and its active count is in range.
proof fn lemma_zero_mix(vs: Seq<Voice>, n: int)
    requires
        0 <= n <= vs.len(),
        forall|i: int| 0 <= i < vs.len() ==> (#[trigger] vs[i]).out_s() == 0,
    ensures
        mix_sum_s(vs, n) == 0,
        0 <= active_count_s(vs, n) <= n,
    decreases n,
{
    if n > 0 {
        lemma_zero_mix(vs, n - 1);
    }
}

/// The voice sum and active count over a uniform pool.
proof fn lemma_uniform_mix(vs: Seq<Voice>, s: int, n: int)
    requires
        0 <= n <= vs.len(),
        forall|i: int| 0 <= i < vs.len() ==> (#[trigger] vs[i]).is_active,
        forall|i: int| 0 <= i < vs.len() ==> (#[trigger] vs[i]).out_s() == s,
    ensures
        mix_sum_s(vs, n) == n * s,
        active_count_s(vs, n) == n,
    decreases n,
{
    if n > 0 {
        lemma_uniform_mix(vs, s, n - 1);
        assert(vs[n - 1].is_active);
        assert(vs[n - 1].out_s() == s);
        assert(mix_sum_s(vs, n) == mix_sum_s(vs, n - 1) + s);
        assert((n - 1) * s + s == n * s) by (nonlinear_arith);
    }
}

} // verus!
