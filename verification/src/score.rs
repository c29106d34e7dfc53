//! The autodifference scorer.
//!
//! One probe anchors the envelope at a random offset `mid` and compares it
//! against the envelope at whole-beat multiples of the candidate period
//! (where a correct period predicts similar energy) and at half- and
//! quarter-period positions (where it predicts dissimilar energy). Whole-beat
//! differences are added with weight `1/|b|` for multiple `b`, misalignment
//! differences are subtracted with weight `|b|`, so lower totals mean better
//! periods. To stay in integers, every weight is scaled by 32: a probe's
//! contribution here is exactly 174 times the weight-normalized value
//! `(beat_diff + nonbeat_diff) / (beat_weight_sum + nonbeat_weight_sum)`,
//! and the constant factor never changes which candidate scores lowest.
//!
//! A candidate's score is the plain sum of its probes' contributions; every
//! candidate gets the same number of probes, so sums are comparable.

use crate::envelope::envelope_bounded;
use crate::{MAX_AMP_Q16, MAX_OFFSET_Q16, MAX_PERIOD_Q16, MAX_PROBES};
use vstd::prelude::*;

verus! {

/// Boundary-sampling policy: the envelope entry under a Q16 offset, or 0 for
/// any offset that floors outside the envelope — an out-of-range probe
/// contributes silence rather than an error.
pub open spec fn spec_sample(nrg: Seq<u64>, off_q16: int) -> u64 {
    if off_q16 < 0 {
        0u64
    } else {
        let n = off_q16 / 65536;
        if n < nrg.len() {
            nrg[n]
        } else {
            0u64
        }
    }
}

/// Read the envelope under the boundary-sampling policy.
pub fn sample_at(nrg: &Vec<u64>, off_q16: u64) -> (r: u64)
    ensures
        r == spec_sample(nrg@, off_q16 as int),
{
    let n = off_q16 / 65536;
    if n < nrg.len() as u64 {
        nrg[n as usize]
    } else {
        0
    }
}

/// `|a - b|` on envelope values.
pub open spec fn abs_diff(a: u64, b: u64) -> int {
    if a >= b {
        a - b
    } else {
        b - a
    }
}

/// How much the envelope at signed offset `mid + delta` differs from the
/// anchor value `v`.
pub open spec fn spec_probe_diff(nrg: Seq<u64>, v: u64, mid: u64, delta: int) -> int {
    abs_diff(spec_sample(nrg, mid + delta), v)
}

fn probe_diff(nrg: &Vec<u64>, v: u64, mid: u64, delta: u64, neg: bool) -> (d: u64)
    requires
        envelope_bounded(nrg@),
        v <= MAX_AMP_Q16,
        !neg ==> mid + delta <= u64::MAX,
    ensures
        d == spec_probe_diff(
            nrg@,
            v,
            mid,
            if neg {
                -(delta as int)
            } else {
                delta as int
            },
        ),
        d <= MAX_AMP_Q16,
{
    let y = if neg {
        if mid >= delta {
            sample_at(nrg, mid - delta)
        } else {
            0
        }
    } else {
        sample_at(nrg, mid + delta)
    };
    if y >= v {
        y - v
    } else {
        v - y
    }
}

/// The contribution of one probe at anchor `mid` to the score of candidate
/// period `p` (both in Q16 envelope units): beat-multiple differences at
/// `mid + b * p` for `b` in `{+-1, +-2, +-4, +-8, +-16, +-32}` weighted by
/// `32 / |b|`, minus misalignment differences at `b` in `{+-1/2, +-1/4}`
/// weighted by `32 * |b|`. Quarter and half periods are floored to the Q16
/// grid.
pub open spec fn spec_autodiff(nrg: Seq<u64>, p: u64, mid: u64) -> int {
    let v = spec_sample(nrg, mid as int);
    let b1 = spec_probe_diff(nrg, v, mid, p as int) + spec_probe_diff(nrg, v, mid, -(p as int));
    let b2 = spec_probe_diff(nrg, v, mid, 2 * p) + spec_probe_diff(nrg, v, mid, -2 * p);
    let b4 = spec_probe_diff(nrg, v, mid, 4 * p) + spec_probe_diff(nrg, v, mid, -4 * p);
    let b8 = spec_probe_diff(nrg, v, mid, 8 * p) + spec_probe_diff(nrg, v, mid, -8 * p);
    let b16 = spec_probe_diff(nrg, v, mid, 16 * p) + spec_probe_diff(nrg, v, mid, -16 * p);
    let b32 = spec_probe_diff(nrg, v, mid, 32 * p) + spec_probe_diff(nrg, v, mid, -32 * p);
    let half = spec_probe_diff(nrg, v, mid, p as int / 2) + spec_probe_diff(
        nrg,
        v,
        mid,
        -(p as int / 2),
    );
    let quarter = spec_probe_diff(nrg, v, mid, p as int / 4) + spec_probe_diff(
        nrg,
        v,
        mid,
        -(p as int / 4),
    );
    32 * b1 + 16 * b2 + 8 * b4 + 4 * b8 + 2 * b16 + 1 * b32 - 16 * half - 8 * quarter
}

/// Score one probe of one candidate.
#[verifier::rlimit(50)]
pub fn autodifference(nrg: &Vec<u64>, p: u64, mid: u64) -> (c: i64)
    requires
        envelope_bounded(nrg@),
        p <= MAX_PERIOD_Q16,
        mid <= MAX_OFFSET_Q16,
    ensures
        c == spec_autodiff(nrg@, p, mid),
        -48 * MAX_AMP_Q16 <= c <= 126 * MAX_AMP_Q16,
{
    let v = sample_at(nrg, mid);
    proof {
        if mid as int / 65536 < nrg@.len() {
            assert(nrg@[mid as int / 65536] <= MAX_AMP_Q16);
        }
    }
    let b1 = probe_diff(nrg, v, mid, p, false) + probe_diff(nrg, v, mid, p, true);
    let b2 = probe_diff(nrg, v, mid, 2 * p, false) + probe_diff(nrg, v, mid, 2 * p, true);
    let b4 = probe_diff(nrg, v, mid, 4 * p, false) + probe_diff(nrg, v, mid, 4 * p, true);
    let b8 = probe_diff(nrg, v, mid, 8 * p, false) + probe_diff(nrg, v, mid, 8 * p, true);
    let b16 = probe_diff(nrg, v, mid, 16 * p, false) + probe_diff(nrg, v, mid, 16 * p, true);
    let b32 = probe_diff(nrg, v, mid, 32 * p, false) + probe_diff(nrg, v, mid, 32 * p, true);
    let half = probe_diff(nrg, v, mid, p / 2, false) + probe_diff(nrg, v, mid, p / 2, true);
    let quarter = probe_diff(nrg, v, mid, p / 4, false) + probe_diff(nrg, v, mid, p / 4, true);
    32 * (b1 as i64) + 16 * (b2 as i64) + 8 * (b4 as i64) + 4 * (b8 as i64) + 2 * (b16 as i64) + (
    b32 as i64) - 16 * (half as i64) - 8 * (quarter as i64)
}

/// The total score of a candidate period over a batch of probe offsets: the
/// raw (unaveraged) sum of the per-probe contributions.
pub open spec fn spec_score(nrg: Seq<u64>, p: u64, offs: Seq<u64>) -> int
    decreases offs.len(),
{
    if offs.len() == 0 {
        0
    } else {
        spec_score(nrg, p, offs.drop_last()) + spec_autodiff(nrg, p, offs.last())
    }
}

/// Score one candidate period over its batch of probe offsets.
pub fn score_candidate(nrg: &Vec<u64>, p: u64, offs: &Vec<u64>) -> (t: i64)
    requires
        envelope_bounded(nrg@),
        p <= MAX_PERIOD_Q16,
        offs@.len() <= MAX_PROBES,
        forall|j: int| 0 <= j < offs@.len() ==> #[trigger] offs@[j] <= MAX_OFFSET_Q16,
    ensures
        t == spec_score(nrg@, p, offs@),
        -48 * MAX_AMP_Q16 * offs@.len() <= t <= 126 * MAX_AMP_Q16 * offs@.len(),
{
    let mut t: i64 = 0;
    let mut j: usize = 0;
    let n = offs.len();
    proof {
        assert(offs@.take(0) =~= Seq::<u64>::empty());
    }
    while j < n
        invariant
            n == offs@.len(),
            n <= MAX_PROBES,
            0 <= j <= n,
            envelope_bounded(nrg@),
            p <= MAX_PERIOD_Q16,
            forall|jj: int| 0 <= jj < offs@.len() ==> #[trigger] offs@[jj] <= MAX_OFFSET_Q16,
            t == spec_score(nrg@, p, offs@.take(j as int)),
            -48 * MAX_AMP_Q16 * j <= t <= 126 * MAX_AMP_Q16 * j,
        decreases n - j,
    {
        let c = autodifference(nrg, p, offs[j]);
        proof {
            let pre = offs@.take(j as int);
            let post = offs@.take(j as int + 1);
            assert(post.drop_last() =~= pre);
            assert(post.last() == offs@[j as int]);
            assert(-48 * MAX_AMP_Q16 * (j + 1) == -48 * MAX_AMP_Q16 * j + -48 * MAX_AMP_Q16)
                by (nonlinear_arith);
            assert(126 * MAX_AMP_Q16 * (j + 1) == 126 * MAX_AMP_Q16 * j + 126 * MAX_AMP_Q16)
                by (nonlinear_arith);
            assert(126 * MAX_AMP_Q16 * (j + 1) <= 126 * MAX_AMP_Q16 * n) by (nonlinear_arith)
                requires j + 1 <= n;
            assert(-48 * MAX_AMP_Q16 * (j + 1) >= -48 * MAX_AMP_Q16 * n) by (nonlinear_arith)
                requires j + 1 <= n;
            assert(126 * MAX_AMP_Q16 * n <= 0x7E00_0000_0000_0000) by (nonlinear_arith)
                requires n <= 65536, MAX_AMP_Q16 == 0x1_0000_0000;
            assert(-48 * MAX_AMP_Q16 * n >= -0x3000_0000_0000_0000) by (nonlinear_arith)
                requires n <= 65536, MAX_AMP_Q16 == 0x1_0000_0000;
        }
        t = t + c;
        j = j + 1;
    }
    proof {
        assert(offs@.take(n as int) =~= offs@);
    }
    t
}

/// Scoring is a pure function of the envelope, the candidate period and the
/// probe batch: scoring the same candidate twice with the same probe offsets
/// yields identical scores.
pub proof fn lemma_score_repeatable(nrg: Seq<u64>, p: u64, offs_a: Seq<u64>, offs_b: Seq<u64>)
    requires
        offs_a == offs_b,
    ensures
        spec_score(nrg, p, offs_a) == spec_score(nrg, p, offs_b),
{
}

} // verus!
