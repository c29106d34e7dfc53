//! The decimated energy envelope of a sample stream.
//!
//! A leaky-integrator amplitude follower runs over every sample: it rises
//! toward a louder sample by an eighth of the gap and decays toward a
//! quieter one by a 512th of the gap, so transients push it up fast and it
//! falls back slowly. The follower value at sample indices `0`, `interval`,
//! `2 * interval`, ... forms the envelope: one entry per `interval`
//! consumed samples, `ceil(n / interval)` entries in all.

use crate::MAX_AMP_Q16;
use vstd::arithmetic::div_mod::lemma_fundamental_div_mod_converse;
use vstd::prelude::*;

verus! {

/// The absolute value of a sample amplitude.
pub open spec fn amp_abs(s: i64) -> int {
    if s < 0 {
        -(s as int)
    } else {
        s as int
    }
}

/// Every sample of `s` has magnitude at most `MAX_AMP_Q16`.
pub open spec fn samples_bounded(s: Seq<i64>) -> bool {
    forall|i: int| 0 <= i < s.len() ==> amp_abs(#[trigger] s[i]) <= MAX_AMP_Q16
}

/// One follower update on value `v` for a sample of magnitude `z`: an
/// "attack" step toward a louder sample, a "decay" step toward a quieter one.
pub open spec fn env_step(v: int, z: int) -> int {
    if z > v {
        v + (z - v) / 8
    } else {
        v - (v - z) / 512
    }
}

/// The follower value after consuming the first `k` samples of `s`,
/// starting from 0.
pub open spec fn env_after(s: Seq<i64>, k: nat) -> int
    decreases k,
{
    if k == 0 {
        0
    } else {
        env_step(env_after(s, (k - 1) as nat), amp_abs(s[k - 1]))
    }
}

/// The number of envelope entries for `n` samples: `ceil(n / interval)`.
pub open spec fn env_len(n: int, interval: int) -> int {
    (n + interval - 1) / interval
}

/// The envelope of `s`: the follower value at sample indices `0`,
/// `interval`, `2 * interval`, ...; entry `j` is the value right after the
/// sample at index `j * interval` has been consumed.
pub open spec fn spec_envelope(s: Seq<i64>, interval: int) -> Seq<u64> {
    Seq::new(env_len(s.len() as int, interval) as nat, |j: int| {
        env_after(s, (j * interval + 1) as nat) as u64
    })
}

/// An update never leaves the band spanned by the old value and the new
/// sample, so the follower stays within `[0, cap]`.
pub proof fn lemma_env_step_bounds(v: int, z: int, cap: int)
    requires
        0 <= v <= cap,
        0 <= z <= cap,
    ensures
        0 <= env_step(v, z) <= cap,
{
}

/// The follower stays within `[0, MAX_AMP_Q16]` over a bounded stream.
pub proof fn lemma_env_after_bounds(s: Seq<i64>, k: nat)
    requires
        samples_bounded(s),
        k <= s.len(),
    ensures
        0 <= env_after(s, k) <= MAX_AMP_Q16,
    decreases k,
{
    if k > 0 {
        lemma_env_after_bounds(s, (k - 1) as nat);
        lemma_env_step_bounds(env_after(s, (k - 1) as nat), amp_abs(s[k - 1]), MAX_AMP_Q16 as int);
    }
}

/// The envelope is never longer than the input: decimation only drops
/// entries.
pub proof fn lemma_env_len_le(n: int, interval: int)
    requires
        0 <= n,
        1 <= interval,
    ensures
        0 <= env_len(n, interval) <= n,
{
    assert(0 <= (n + interval - 1) / interval <= n) by (nonlinear_arith)
        requires 0 <= n, 1 <= interval;
}

/// Every envelope entry lies within `[0, MAX_AMP_Q16]`.
pub open spec fn envelope_bounded(nrg: Seq<u64>) -> bool {
    forall|j: int| 0 <= j < nrg.len() ==> #[trigger] nrg[j] <= MAX_AMP_Q16
}

/// Build the decimated energy envelope of a fully materialized sample
/// sequence.
pub fn build_envelope(samples: &Vec<i64>, interval: u64) -> (nrg: Vec<u64>)
    requires
        1 <= interval <= crate::MAX_INTERVAL,
        samples@.len() <= 0x4000_0000_0000,
        samples_bounded(samples@),
    ensures
        nrg@ == spec_envelope(samples@, interval as int),
        nrg@.len() == env_len(samples@.len() as int, interval as int),
        envelope_bounded(nrg@),
{
    let ghost s = samples@;
    let n = samples.len();
    let mut nrg: Vec<u64> = Vec::new();
    let mut v: u64 = 0;
    let mut next_push: u64 = 0;
    let mut idx: usize = 0;
    proof {
        assert(nrg@.len() * interval == 0);
    }
    while idx < n
        invariant
            n == s.len(),
            n <= 0x4000_0000_0000,
            samples@ == s,
            samples_bounded(s),
            1 <= interval <= crate::MAX_INTERVAL,
            0 <= idx <= n,
            v == env_after(s, idx as nat),
            0 <= v <= MAX_AMP_Q16,
            next_push == nrg@.len() * interval,
            idx <= next_push < idx + interval,
            forall|j: int| 0 <= j < nrg@.len() ==> nrg@[j] == env_after(s, (j * interval + 1) as nat),
        decreases n - idx,
    {
        let sv = samples[idx];
        let z: u64 = if sv < 0 {
            (-sv) as u64
        } else {
            sv as u64
        };
        proof {
            assert(z == amp_abs(s[idx as int]));
            lemma_env_after_bounds(s, (idx + 1) as nat);
        }
        if z > v {
            v = v + (z - v) / 8;
        } else {
            v = v - (v - z) / 512;
        }
        assert(v == env_after(s, (idx + 1) as nat));
        if idx as u64 == next_push {
            let ghost old_len = nrg@.len();
            nrg.push(v);
            proof {
                assert(old_len * interval + 1 == idx + 1);
                assert(nrg@.len() * interval == old_len * interval + interval) by (nonlinear_arith)
                    requires nrg@.len() == old_len + 1;
            }
            next_push = next_push + interval;
        }
        idx = idx + 1;
    }
    proof {
        let iv = interval as int;
        let len = nrg@.len() as int;
        assert(n <= len * iv < n + iv);
        lemma_fundamental_div_mod_converse(
            n + iv - 1,
            iv,
            len,
            n + iv - 1 - len * iv,
        );
        assert(len == env_len(n as int, iv));
        assert forall|j: int| 0 <= j < nrg@.len() implies nrg@[j] == spec_envelope(s, iv)[j]
            && #[trigger] nrg@[j] <= MAX_AMP_Q16 by {
            assert(0 <= j * iv && j * iv + 1 <= n) by (nonlinear_arith)
                requires 0 <= j < len, len * iv < n + iv, iv >= 1;
            lemma_env_after_bounds(s, (j * iv + 1) as nat);
        };
        assert(nrg@ =~= spec_envelope(s, iv));
    }
    nrg
}

} // verus!
