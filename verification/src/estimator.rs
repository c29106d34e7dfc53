//! The tempo estimator.
//!
//! `Naive` holds the analysis configuration: the BPM search range, the
//! envelope decimation factor, the sample rate, the number of candidate
//! periods and the number of random probes per candidate. One analysis call
//! builds the envelope, draws all probe offsets up front in candidate order
//! from a caller-seeded generator, scores every candidate, and converts the
//! first minimum-scoring candidate period back to BPM.
//!
//! The estimate is a deterministic function of the samples, the
//! configuration and the seed: every public entry point's contract equates
//! its result with the one spec-level pipeline.

use crate::envelope::{env_len, samples_bounded, spec_envelope};
use crate::grid::{grid_args_wf, grid_den, grid_m, spec_grid};
use crate::ratio::{ratio_eq, ratio_le, Ratio};
use crate::rng::{spec_offset, spec_rng_init};
use crate::score::spec_score;
use crate::{MAX_BPM_Q16, MAX_INTERVAL, MAX_PROBES, MAX_RATE_Q16, MAX_STEPS};
use vstd::prelude::*;

verus! {

/// Tempo-estimation configuration. BPM bounds and the sample rate are in
/// Q16 fixed point (`value * 65536`).
#[derive(Clone, Copy, Debug)]
pub struct Naive {
    /// Minimum BPM to consider, Q16.
    pub lower: u64,
    /// Maximum BPM to consider, Q16.
    pub upper: u64,
    /// Envelope decimation factor: samples averaged per envelope entry.
    pub interval: u64,
    /// Input sample rate in Hz, Q16.
    pub rate: u64,
    /// Number of candidate periods to evaluate.
    pub steps: u32,
    /// Number of random probes per candidate.
    pub samples: u32,
}

impl Naive {
    /// A valid configuration: positive bounds with `lower < upper`, all
    /// within the capacity limits of the exact arithmetic.
    pub open spec fn wf(self) -> bool {
        &&& grid_args_wf(self.lower, self.upper, self.interval, self.rate, self.steps)
        &&& 1 <= self.samples <= MAX_PROBES
    }

    /// The default configuration: 50-450 BPM at 44100 Hz, decimation 64,
    /// 800 candidates with 1024 probes each.
    pub fn default() -> (r: Naive)
        ensures
            r == (Naive {
                lower: 3276800,
                upper: 29491200,
                interval: 64,
                rate: 2890137600,
                steps: 800,
                samples: 1024,
            }),
            r.wf(),
    {
        Naive {
            lower: 3276800,
            upper: 29491200,
            interval: 64,
            rate: 2890137600,
            steps: 800,
            samples: 1024,
        }
    }

    /// A finer, slower configuration: decimation 8, 1600 candidates with
    /// 4096 probes each.
    pub fn fine() -> (r: Naive)
        ensures
            r == (Naive {
                lower: 3276800,
                upper: 29491200,
                interval: 8,
                rate: 2890137600,
                steps: 1600,
                samples: 4096,
            }),
            r.wf(),
    {
        Naive {
            lower: 3276800,
            upper: 29491200,
            interval: 8,
            rate: 2890137600,
            steps: 1600,
            samples: 4096,
        }
    }

    /// A coarser, faster configuration: decimation 128, 400 candidates with
    /// 512 probes each.
    pub fn rough() -> (r: Naive)
        ensures
            r == (Naive {
                lower: 3276800,
                upper: 29491200,
                interval: 128,
                rate: 2890137600,
                steps: 400,
                samples: 512,
            }),
            r.wf(),
    {
        Naive {
            lower: 3276800,
            upper: 29491200,
            interval: 128,
            rate: 2890137600,
            steps: 400,
            samples: 512,
        }
    }

    /// Build a configuration, rejecting one that violates the bounds: the
    /// result is `Some` exactly when `0 < lower < upper`, `interval`,
    /// `rate`, `steps` and `samples` are positive, and everything is within
    /// the capacity limits.
    pub fn new(lower: u64, upper: u64, interval: u64, rate: u64, steps: u32, samples: u32) -> (r:
        Option<Naive>)
        ensures
            r is Some <==> (Naive { lower, upper, interval, rate, steps, samples }).wf(),
            r is Some ==> r->0 == (Naive { lower, upper, interval, rate, steps, samples }),
    {
        if 1 <= lower && lower < upper && upper <= MAX_BPM_Q16 && 1 <= interval && interval
            <= MAX_INTERVAL && 1 <= rate && rate <= MAX_RATE_Q16 && 1 <= steps && steps <= MAX_STEPS
            && 1 <= samples && samples <= MAX_PROBES {
            Some(Naive { lower, upper, interval, rate, steps, samples })
        } else {
            None
        }
    }
}

/// The envelope's index range in Q16 fixed point: its length times 65536.
pub open spec fn spec_len_q16(nrg: Seq<u64>) -> u64 {
    (nrg.len() * 65536) as u64
}

/// Candidate `i`'s period floored to Q16 fixed point, as handed to the
/// scorer.
pub open spec fn cand_period_q16(cfg: Naive, i: int) -> u64 {
    spec_grid(cfg.lower, cfg.upper, cfg.interval, cfg.rate, cfg.steps)[i].spec_to_q16() as u64
}

/// The probe batch of candidate `i`: `samples` offsets drawn from the
/// shared stream, candidate 0's probes first, then candidate 1's, and so
/// on.
pub open spec fn spec_cand_offsets(s0: u64, samples: u32, i: int, len_q16: u64) -> Seq<u64> {
    Seq::new(samples as nat, |j: int| spec_offset(s0, (i * samples + j) as nat, len_q16))
}

/// Every candidate's total score, in grid order.
pub open spec fn spec_scores(cfg: Naive, nrg: Seq<u64>, s0: u64) -> Seq<int> {
    Seq::new(cfg.steps as nat, |i: int| spec_score(
        nrg,
        cand_period_q16(cfg, i),
        spec_cand_offsets(s0, cfg.samples, i, spec_len_q16(nrg)),
    ))
}

/// The index of the first minimum of a non-empty score sequence: a later
/// candidate wins only with a strictly lower score.
pub open spec fn spec_argmin(scores: Seq<int>) -> int
    decreases scores.len(),
{
    if scores.len() <= 1 {
        0
    } else {
        let r = spec_argmin(scores.drop_last());
        if scores.last() < scores[r] {
            scores.len() - 1
        } else {
            r
        }
    }
}

/// The first minimum of a non-empty sequence is a valid index.
pub proof fn lemma_argmin_range(scores: Seq<int>)
    requires
        scores.len() >= 1,
    ensures
        0 <= spec_argmin(scores) < scores.len(),
    decreases scores.len(),
{
    if scores.len() > 1 {
        lemma_argmin_range(scores.drop_last());
    }
}

/// The selector keeps the first-seen minimum: no score is lower than the
/// selected one, and every earlier score is strictly higher.
pub proof fn lemma_argmin_minimal(scores: Seq<int>)
    requires
        scores.len() >= 1,
    ensures
        forall|j: int| 0 <= j < scores.len() ==> scores[spec_argmin(scores)] <= #[trigger] scores[j],
        forall|j: int| 0 <= j < spec_argmin(scores) ==> scores[spec_argmin(scores)]
            < #[trigger] scores[j],
    decreases scores.len(),
{
    lemma_argmin_range(scores);
    if scores.len() > 1 {
        lemma_argmin_minimal(scores.drop_last());
        lemma_argmin_range(scores.drop_last());
        assert(forall|j: int| 0 <= j < scores.len() - 1 ==> scores.drop_last()[j] == #[trigger] scores[j]);
    }
}

/// The reported BPM value for winning candidate `k`, as a Q16 ratio (its
/// value times 65536 is the BPM): the common factors of the grid entry and
/// the conversion cancel into this small closed form.
pub open spec fn spec_bpm_result(cfg: Naive, k: int) -> Ratio {
    if cfg.steps == 1 {
        Ratio { num: cfg.upper as u128, den: 65536 }
    } else {
        Ratio {
            num: (cfg.upper * cfg.lower * (cfg.steps - 1)) as u128,
            den: (grid_m(cfg.lower, cfg.upper, cfg.steps, k) * 65536) as u128,
        }
    }
}

/// The estimate for an already-built envelope and a seed.
pub open spec fn spec_scan(cfg: Naive, nrg: Seq<u64>, seed: u64) -> Ratio {
    spec_bpm_result(cfg, spec_argmin(spec_scores(cfg, nrg, spec_rng_init(seed))))
}

/// The estimate for a sample sequence and a seed: the whole pipeline as one
/// function. Identical samples, configuration and seed always give the
/// identical estimate.
pub open spec fn spec_estimate(cfg: Naive, samples: Seq<i64>, seed: u64) -> Ratio {
    spec_scan(cfg, spec_envelope(samples, cfg.interval as int), seed)
}

/// Whichever candidate wins, the reported BPM value lies within
/// `[lower, upper]` inclusive, and its ratio components stay small enough
/// for exact comparisons.
pub proof fn lemma_bpm_result_in_range(cfg: Naive, k: int)
    requires
        cfg.wf(),
        0 <= k < cfg.steps,
    ensures
        spec_bpm_result(cfg, k).wf(),
        spec_bpm_result(cfg, k).num <= 0x8000_0000_0000_0000,
        spec_bpm_result(cfg, k).den <= 0x8000_0000_0000_0000,
        ratio_le(Ratio { num: cfg.lower as u128, den: 65536 }, spec_bpm_result(cfg, k)),
        ratio_le(spec_bpm_result(cfg, k), Ratio { num: cfg.upper as u128, den: 65536 }),
{
    let r = spec_bpm_result(cfg, k);
    if cfg.steps == 1 {
        assert(r.num == cfg.upper && r.den == 65536);
    } else {
        let m = grid_m(cfg.lower, cfg.upper, cfg.steps, k);
        let nv = cfg.upper * cfg.lower * (cfg.steps - 1);
        assert(cfg.lower * (cfg.steps - 1) <= m <= cfg.upper * (cfg.steps - 1)
            && 1 <= m < 0x80_0000_0000 && 1 <= nv <= 0x8000_0000_0000_0000) by (nonlinear_arith)
            requires
                m == cfg.lower * (cfg.steps - 1) + k * (cfg.upper - cfg.lower),
                nv == cfg.upper * cfg.lower * (cfg.steps - 1),
                1 <= cfg.lower < cfg.upper <= 0x400_0000,
                2 <= cfg.steps <= 2048,
                0 <= k < cfg.steps,
        ;
        assert(r.num == nv && r.den == m * 65536);
        assert(cfg.lower * (m * 65536) <= nv * 65536) by (nonlinear_arith)
            requires nv == cfg.upper * cfg.lower * (cfg.steps - 1), m <= cfg.upper * (cfg.steps - 1), 1 <= cfg.lower, 0 <= m;
        assert(nv * 65536 <= cfg.upper * (m * 65536)) by (nonlinear_arith)
            requires nv == cfg.upper * cfg.lower * (cfg.steps - 1), cfg.lower * (cfg.steps - 1) <= m, 1 <= cfg.upper;
    }
}

/// The closed-form result equals converting the winning grid period back
/// to BPM: the selector, the grid and the converter agree.
pub proof fn lemma_bpm_result_matches_grid(cfg: Naive, k: int)
    requires
        cfg.wf(),
        0 <= k < cfg.steps,
    ensures
        ratio_eq(
            spec_bpm_result(cfg, k),
            crate::convert::spec_period_to_bpm(
                spec_grid(cfg.lower, cfg.upper, cfg.interval, cfg.rate, cfg.steps)[k],
                cfg.interval,
                cfg.rate,
            ),
        ),
{
    let g = spec_grid(cfg.lower, cfg.upper, cfg.interval, cfg.rate, cfg.steps)[k];
    let r = spec_bpm_result(cfg, k);
    let back = crate::convert::spec_period_to_bpm(g, cfg.interval, cfg.rate);
    if cfg.steps == 1 {
        assert(1 <= cfg.upper * cfg.interval < 0x4000_0000_0000) by (nonlinear_arith)
            requires 1 <= cfg.upper <= 0x400_0000, 1 <= cfg.interval <= 4096;
        assert(g.num == 60 * cfg.rate && g.den == cfg.upper * cfg.interval);
        assert(0 < 60 * cfg.rate * (cfg.upper * cfg.interval) < 0x1_0000_0000_0000_0000_0000_0000
            && 0 < 60 * cfg.rate * cfg.interval * 65536 < 0x1_0000_0000_0000_0000_0000_0000)
            by (nonlinear_arith)
            requires 1 <= cfg.rate <= 0x1_0000_0000, 1 <= cfg.upper * cfg.interval < 0x4000_0000_0000, 1 <= cfg.interval <= 4096;
        assert(back.num == 60 * cfg.rate * (cfg.upper * cfg.interval) && back.den == (60 * cfg.rate)
            * cfg.interval * 65536);
        assert(cfg.upper * (60 * cfg.rate * (cfg.upper * cfg.interval) * 65536) == cfg.upper * 65536
            * (60 * cfg.rate * (cfg.upper * cfg.interval))) by (nonlinear_arith);
        assert(r.num * back.den == back.num * r.den) by (nonlinear_arith)
            requires
                r.num == cfg.upper,
                r.den == 65536,
                back.num == 60 * cfg.rate * (cfg.upper * cfg.interval),
                back.den == (60 * cfg.rate) * cfg.interval * 65536,
        ;
    } else {
        let m = grid_m(cfg.lower, cfg.upper, cfg.steps, k);
        let d = grid_den(cfg.lower, cfg.upper, cfg.interval, cfg.steps);
        let nv = cfg.upper * cfg.lower * (cfg.steps - 1);
        assert(cfg.lower * (cfg.steps - 1) <= m <= cfg.upper * (cfg.steps - 1)
            && 1 <= m < 0x80_0000_0000 && 1 <= nv <= 0x8000_0000_0000_0000
            && 1 <= d < 0x1_0000_0000_0000_0000_0000
            && 0 < 60 * cfg.rate * m < 0x2000_0000_0000_0000_0000) by (nonlinear_arith)
            requires
                m == cfg.lower * (cfg.steps - 1) + k * (cfg.upper - cfg.lower),
                nv == cfg.upper * cfg.lower * (cfg.steps - 1),
                d == cfg.upper * cfg.lower * cfg.interval * (cfg.steps - 1),
                1 <= cfg.lower < cfg.upper <= 0x400_0000,
                1 <= cfg.interval <= 4096,
                1 <= cfg.rate <= 0x1_0000_0000,
                2 <= cfg.steps <= 2048,
                0 <= k < cfg.steps,
        ;
        assert(g.num == 60 * cfg.rate * m && g.den == d);
        assert(0 < 60 * cfg.rate * d < 0x1_0000_0000_0000_0000_0000_0000_0000_0000
            && 0 < (60 * cfg.rate * m) * cfg.interval * 65536
                < 0x1_0000_0000_0000_0000_0000_0000_0000_0000) by (nonlinear_arith)
            requires
                1 <= cfg.rate <= 0x1_0000_0000,
                1 <= d < 0x1_0000_0000_0000_0000_0000,
                0 < 60 * cfg.rate * m < 0x2000_0000_0000_0000_0000,
                1 <= cfg.interval <= 4096,
        ;
        assert(back.num == 60 * cfg.rate * d && back.den == (60 * cfg.rate * m) * cfg.interval
            * 65536);
        assert(r.num == nv && r.den == m * 65536);
        assert(nv * ((60 * cfg.rate * m) * cfg.interval * 65536) == (60 * cfg.rate * d) * (m
            * 65536)) by (nonlinear_arith)
            requires
                nv == cfg.upper * cfg.lower * (cfg.steps - 1),
                d == cfg.upper * cfg.lower * cfg.interval * (cfg.steps - 1),
        ;
    }
}

/// One probe batch drawn at stream position `i * samples` is exactly
/// candidate `i`'s batch of the shared stream.
proof fn lemma_offsets_batch(s0: u64, samples: u32, i: int, len_q16: u64, offs: Seq<u64>)
    requires
        0 <= i,
        offs.len() == samples,
        forall|j: int| 0 <= j < samples ==> offs[j] == spec_offset(
            crate::rng::spec_rng_at(s0, (i * samples) as nat),
            j as nat,
            len_q16,
        ),
    ensures
        offs == spec_cand_offsets(s0, samples, i, len_q16),
{
    assert forall|j: int| 0 <= j < samples implies offs[j] == spec_cand_offsets(
        s0,
        samples,
        i,
        len_q16,
    )[j] by {
        crate::rng::lemma_rng_at_add(s0, (i * samples) as nat, (j + 1) as nat);
    };
    assert(offs =~= spec_cand_offsets(s0, samples, i, len_q16));
}

/// How the first minimum over one more candidate relates to the first
/// minimum so far: a strictly lower score takes over, anything else keeps
/// the earlier winner.
proof fn lemma_argmin_step(scores: Seq<int>, i: int)
    requires
        0 <= i < scores.len(),
    ensures
        i == 0 ==> spec_argmin(scores.take(1)) == 0,
        i >= 1 ==> spec_argmin(scores.take(i + 1)) == (if scores[i] < scores[spec_argmin(
            scores.take(i),
        )] {
            i
        } else {
            spec_argmin(scores.take(i))
        }),
        scores.take(i + 1)[i] == scores[i],
{
    let pre = scores.take(i);
    let post = scores.take(i + 1);
    assert(post.drop_last() =~= pre);
    assert(post.last() == scores[i]);
    if i >= 1 {
        lemma_argmin_range(pre);
    }
}

impl Naive {
    /// Draw every candidate's probe batch up front, before any scoring
    /// starts: candidate 0's probes first, then candidate 1's, and so on,
    /// all from one shared stream. Batching first is part of the contract:
    /// it fixes the exact draw order that determinism depends on.
    fn draw_all_offsets(&self, len_q16: u64, seed: u64) -> (all_offs: Vec<Vec<u64>>)
        requires
            self.wf(),
            len_q16 <= crate::MAX_OFFSET_Q16,
        ensures
            all_offs@.len() == self.steps,
            forall|k: int| 0 <= k < self.steps ==> (#[trigger] all_offs@[k])@
                == spec_cand_offsets(spec_rng_init(seed), self.samples, k, len_q16),
            forall|k: int, j: int| 0 <= k < self.steps && 0 <= j < self.samples
                ==> #[trigger] all_offs@[k]@[j] <= crate::MAX_OFFSET_Q16,
    {
        let ghost s0 = spec_rng_init(seed);
        let mut rng = crate::rng::Rng::new(seed);
        let mut all_offs: Vec<Vec<u64>> = Vec::new();
        let mut i: u32 = 0;
        proof {
            assert(i * self.samples == 0);
        }
        while i < self.steps
            invariant
                self.wf(),
                len_q16 <= crate::MAX_OFFSET_Q16,
                s0 == spec_rng_init(seed),
                0 <= i <= self.steps,
                all_offs@.len() == i,
                rng.state == crate::rng::spec_rng_at(s0, (i * self.samples) as nat),
                forall|k: int| 0 <= k < i ==> (#[trigger] all_offs@[k])@ == spec_cand_offsets(
                    s0,
                    self.samples,
                    k,
                    len_q16,
                ),
                forall|k: int, j: int| 0 <= k < i && 0 <= j < self.samples
                    ==> #[trigger] all_offs@[k]@[j] <= crate::MAX_OFFSET_Q16,
            decreases self.steps - i,
        {
            let ghost st_i = rng.state;
            let offs = rng.draw_offsets(self.samples, len_q16);
            proof {
                lemma_offsets_batch(s0, self.samples, i as int, len_q16, offs@);
                assert forall|j: int| 0 <= j < offs@.len() implies #[trigger] offs@[j]
                    <= crate::MAX_OFFSET_Q16 by {
                    if len_q16 == 0 {
                        assert(offs@[j] == spec_offset(st_i, j as nat, len_q16));
                    }
                };
                crate::rng::lemma_rng_at_add(s0, (i * self.samples) as nat, self.samples as nat);
                assert((i + 1) * self.samples == i * self.samples + self.samples)
                    by (nonlinear_arith);
            }
            all_offs.push(offs);
            i = i + 1;
        }
        all_offs
    }

    /// Find the index of the first minimum-scoring candidate: lay the grid,
    /// draw every candidate's probe batch, then score each candidate and
    /// fold with a strict less-than.
    #[verifier::rlimit(100)]
    fn best_candidate(&self, nrg: &Vec<u64>, seed: u64) -> (k: u32)
        requires
            self.wf(),
            crate::envelope::envelope_bounded(nrg@),
            nrg@.len() <= crate::MAX_INPUT_LEN,
        ensures
            k == spec_argmin(spec_scores(*self, nrg@, spec_rng_init(seed))),
            k < self.steps,
    {
        let g = crate::grid::candidate_grid(
            self.lower,
            self.upper,
            self.interval,
            self.rate,
            self.steps,
        );
        let len_q16: u64 = (nrg.len() as u64) * 65536;
        let ghost s0 = spec_rng_init(seed);
        let ghost scores = spec_scores(*self, nrg@, s0);
        let all_offs = self.draw_all_offsets(len_q16, seed);
        let mut best_i: u32 = 0;
        let mut best_t: i64 = 0;
        let mut i: u32 = 0;
        while i < self.steps
            invariant
                self.wf(),
                crate::envelope::envelope_bounded(nrg@),
                nrg@.len() <= crate::MAX_INPUT_LEN,
                len_q16 == spec_len_q16(nrg@),
                g@ == spec_grid(self.lower, self.upper, self.interval, self.rate, self.steps),
                g@.len() == self.steps,
                forall|k: int| 0 <= k < self.steps ==> (#[trigger] g@[k]).wf(),
                forall|k: int| 0 <= k < self.steps ==> (#[trigger] g@[k]).num <= 60 * self.rate
                    * g@[k].den,
                forall|k: int| 0 <= k < self.steps ==> (#[trigger] g@[k]).num
                    < 0x2000_0000_0000_0000_0000,
                scores == spec_scores(*self, nrg@, s0),
                s0 == spec_rng_init(seed),
                scores.len() == self.steps,
                all_offs@.len() == self.steps,
                forall|k: int| 0 <= k < self.steps ==> (#[trigger] all_offs@[k])@
                    == spec_cand_offsets(s0, self.samples, k, len_q16),
                forall|k: int, j: int| 0 <= k < self.steps && 0 <= j < self.samples
                    ==> #[trigger] all_offs@[k]@[j] <= crate::MAX_OFFSET_Q16,
                0 <= i <= self.steps,
                i >= 1 ==> 0 <= best_i < i && best_i == spec_argmin(scores.take(i as int))
                    && best_t == scores[best_i as int],
            decreases self.steps - i,
        {
            let ghost gi = g@[i as int];
            proof {
                gi.lemma_to_q16_le(60 * self.rate);
                assert(60 * self.rate * 65536 <= 0x3C_0000_0000_0000) by (nonlinear_arith)
                    requires self.rate <= 0x1_0000_0000;
            }
            let p = g[i as usize].to_q16();
            let t = crate::score::score_candidate(nrg, p, &all_offs[i as usize]);
            proof {
                assert(p == cand_period_q16(*self, i as int));
                assert(t == scores[i as int]);
                lemma_argmin_step(scores, i as int);
            }
            if i == 0 || t < best_t {
                best_t = t;
                best_i = i;
            }
            i = i + 1;
        }
        proof {
            assert(scores.take(self.steps as int) =~= scores);
        }
        best_i
    }

    /// Scan the candidate grid over an already-built envelope: score every
    /// candidate period with its batch of probe offsets and return the BPM
    /// of the first minimum-scoring candidate, as a Q16 ratio (its value
    /// times 65536 is the BPM). The result always lies within
    /// `[lower, upper]`.
    pub fn scan_for_bpm(&self, nrg: &Vec<u64>, seed: u64) -> (r: Ratio)
        requires
            self.wf(),
            crate::envelope::envelope_bounded(nrg@),
            nrg@.len() <= crate::MAX_INPUT_LEN,
        ensures
            r == spec_scan(*self, nrg@, seed),
            r.wf(),
            r.num <= 0x8000_0000_0000_0000,
            r.den <= 0x8000_0000_0000_0000,
            ratio_le(Ratio { num: self.lower as u128, den: 65536 }, r),
            ratio_le(r, Ratio { num: self.upper as u128, den: 65536 }),
    {
        let best_i = self.best_candidate(nrg, seed);
        proof {
            lemma_bpm_result_in_range(*self, best_i as int);
        }
        if self.steps == 1 {
            Ratio { num: self.upper as u128, den: 65536 }
        } else {
            let sm1: u128 = (self.steps - 1) as u128;
            proof {
                assert((self.lower as u128) * sm1 + (best_i as u128) * ((self.upper
                    - self.lower) as u128) == grid_m(self.lower, self.upper, self.steps, best_i as int)
                    && grid_m(self.lower, self.upper, self.steps, best_i as int) < 0x80_0000_0000
                    && (self.upper as u128) * (self.lower as u128) * sm1 == self.upper * self.lower
                    * (self.steps - 1)
                    && (self.upper as u128) * (self.lower as u128) < 0x10_0000_0000_0000
                    && self.upper * self.lower * (self.steps - 1) <= 0x8000_0000_0000_0000)
                    by (nonlinear_arith)
                    requires
                        sm1 == self.steps - 1,
                        1 <= self.lower < self.upper <= 0x400_0000,
                        2 <= self.steps <= 2048,
                        0 <= best_i < self.steps,
                ;
            }
            let m: u128 = (self.lower as u128) * sm1 + (best_i as u128) * ((self.upper
                - self.lower) as u128);
            Ratio { num: (self.upper as u128) * (self.lower as u128) * sm1, den: m * 65536 }
        }
    }

    /// Analyse a materialized vector of samples: build the envelope, then
    /// scan it. `seed` drives the probe offsets, so identical samples,
    /// configuration and seed give the identical estimate. The returned Q16
    /// ratio always lies within `[lower, upper]`.
    pub fn analyse_vec(&self, samples: &Vec<i64>, seed: u64) -> (r: Ratio)
        requires
            self.wf(),
            samples@.len() <= crate::MAX_INPUT_LEN,
            samples_bounded(samples@),
        ensures
            r == spec_estimate(*self, samples@, seed),
            r.wf(),
            r.num <= 0x8000_0000_0000_0000,
            r.den <= 0x8000_0000_0000_0000,
            ratio_le(Ratio { num: self.lower as u128, den: 65536 }, r),
            ratio_le(r, Ratio { num: self.upper as u128, den: 65536 }),
    {
        let nrg = crate::envelope::build_envelope(samples, self.interval);
        proof {
            env_len_within_cap(samples@.len() as int, self.interval as int);
        }
        self.scan_for_bpm(&nrg, seed)
    }

    /// Analyse samples pulled lazily from a source, draining it fully. The
    /// estimate is the same one `analyse_vec` gives for the same underlying
    /// samples.
    pub fn analyse<S: crate::source::Source>(&self, src: &mut S, seed: u64) -> (r: Ratio)
        requires
            self.wf(),
            old(src).stream().len() <= crate::MAX_INPUT_LEN,
            samples_bounded(old(src).stream()),
        ensures
            r == spec_estimate(*self, old(src).stream(), seed),
            final(src).stream().len() == 0,
            r.wf(),
            r.num <= 0x8000_0000_0000_0000,
            r.den <= 0x8000_0000_0000_0000,
            ratio_le(Ratio { num: self.lower as u128, den: 65536 }, r),
            ratio_le(r, Ratio { num: self.upper as u128, den: 65536 }),
    {
        let ghost s = src.stream();
        let nrg = crate::source::build_envelope_source(src, self.interval);
        proof {
            env_len_within_cap(s.len() as int, self.interval as int);
        }
        self.scan_for_bpm(&nrg, seed)
    }
}

/// A bounded input gives a bounded envelope.
proof fn env_len_within_cap(n: int, interval: int)
    requires
        0 <= n <= crate::MAX_INPUT_LEN,
        1 <= interval,
    ensures
        0 <= env_len(n, interval) <= crate::MAX_INPUT_LEN,
{
    crate::envelope::lemma_env_len_le(n, interval);
}

/// The estimate is a pure function of the samples, the configuration and
/// the seed: identical inputs always give the identical estimate.
pub proof fn lemma_estimate_deterministic(
    cfg: Naive,
    samples_a: Seq<i64>,
    samples_b: Seq<i64>,
    seed_a: u64,
    seed_b: u64,
)
    requires
        samples_a == samples_b,
        seed_a == seed_b,
    ensures
        spec_estimate(cfg, samples_a, seed_a) == spec_estimate(cfg, samples_b, seed_b),
{
}

/// For any input and seed, the estimate lies within `[lower, upper]`
/// inclusive.
pub proof fn lemma_estimate_in_range(cfg: Naive, samples: Seq<i64>, seed: u64)
    requires
        cfg.wf(),
    ensures
        ratio_le(Ratio { num: cfg.lower as u128, den: 65536 }, spec_estimate(cfg, samples, seed)),
        ratio_le(spec_estimate(cfg, samples, seed), Ratio { num: cfg.upper as u128, den: 65536 }),
{
    let nrg = spec_envelope(samples, cfg.interval as int);
    let scores = spec_scores(cfg, nrg, spec_rng_init(seed));
    lemma_argmin_range(scores);
    lemma_bpm_result_in_range(cfg, spec_argmin(scores));
}

/// Over an empty envelope every probe is out of range, so every candidate's
/// score is zero.
proof fn lemma_score_empty_env(p: u64, offs: Seq<u64>)
    ensures
        spec_score(Seq::empty(), p, offs) == 0,
    decreases offs.len(),
{
    if offs.len() > 0 {
        lemma_score_empty_env(p, offs.drop_last());
        assert(crate::score::spec_autodiff(Seq::empty(), p, offs.last()) == 0);
    }
}

/// With equal scores throughout, the strict less-than fold never replaces
/// the first candidate.
proof fn lemma_argmin_all_equal(scores: Seq<int>, v: int)
    requires
        scores.len() >= 1,
        forall|j: int| 0 <= j < scores.len() ==> #[trigger] scores[j] == v,
    ensures
        spec_argmin(scores) == 0,
    decreases scores.len(),
{
    if scores.len() > 1 {
        lemma_argmin_all_equal(scores.drop_last(), v);
        lemma_argmin_range(scores.drop_last());
    }
}

/// An empty sample sequence yields an empty envelope, all scores zero, and
/// the first candidate — the one for `upper` — wins by tie-break: the
/// estimate is exactly `upper`.
pub proof fn lemma_empty_input(cfg: Naive, seed: u64)
    requires
        cfg.wf(),
    ensures
        spec_argmin(
            spec_scores(
                cfg,
                spec_envelope(Seq::empty(), cfg.interval as int),
                spec_rng_init(seed),
            ),
        ) == 0,
        ratio_eq(
            spec_estimate(cfg, Seq::empty(), seed),
            Ratio { num: cfg.upper as u128, den: 65536 },
        ),
{
    let iv = cfg.interval as int;
    assert((iv - 1) / iv == 0) by (nonlinear_arith)
        requires 1 <= iv;
    let nrg = spec_envelope(Seq::empty(), iv);
    assert(nrg =~= Seq::<u64>::empty());
    let s0 = spec_rng_init(seed);
    let scores = spec_scores(cfg, nrg, s0);
    assert forall|j: int| 0 <= j < scores.len() implies #[trigger] scores[j] == 0 by {
        lemma_score_empty_env(
            cand_period_q16(cfg, j),
            spec_cand_offsets(s0, cfg.samples, j, spec_len_q16(nrg)),
        );
    };
    lemma_argmin_all_equal(scores, 0);
    let r = spec_bpm_result(cfg, 0);
    if cfg.steps == 1 {
    } else {
        let m0 = grid_m(cfg.lower, cfg.upper, cfg.steps, 0);
        assert(1 <= m0 < 0x80_0000_0000 && 1 <= cfg.upper * cfg.lower * (cfg.steps - 1)
            <= 0x8000_0000_0000_0000 && cfg.upper * cfg.lower * (cfg.steps - 1) * 65536
            == cfg.upper * (m0 * 65536)) by (nonlinear_arith)
            requires
                m0 == cfg.lower * (cfg.steps - 1) + 0 * (cfg.upper - cfg.lower),
                1 <= cfg.lower < cfg.upper <= 0x400_0000,
                2 <= cfg.steps <= 2048,
        ;
        assert(r.num == cfg.upper * cfg.lower * (cfg.steps - 1) && r.den == m0 * 65536);
        assert(r.num * 65536 == (cfg.upper as u128) * r.den) by (nonlinear_arith)
            requires
                r.num == cfg.upper * cfg.lower * (cfg.steps - 1),
                r.den == m0 * 65536,
                cfg.upper * cfg.lower * (cfg.steps - 1) * 65536 == cfg.upper * (m0 * 65536),
        ;
    }
}

} // verus!
