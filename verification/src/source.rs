//! Pull-based sample sources.
//!
//! The estimator accepts samples either as a materialized vector or from a
//! `Source`, a pull interface that delivers one sample per call, so a
//! decoder can feed the analysis lazily. Both paths produce the same
//! envelope, and hence the same estimate, for the same underlying samples.

use crate::envelope::{
    amp_abs, env_after, env_len, envelope_bounded, samples_bounded, spec_envelope,
};
use crate::MAX_AMP_Q16;
use vstd::arithmetic::div_mod::lemma_fundamental_div_mod_converse;
use vstd::prelude::*;

verus! {

/// A stateful source of samples, drained front to back. `stream()` is the
/// sequence of samples it has yet to deliver; `get` hands out the head.
/// Implementations outside this crate (a decoder, a file reader) must
/// deliver their samples in the same way.
pub trait Source {
    /// The samples this source has yet to deliver, oldest first.
    spec fn stream(&self) -> Seq<i64>;

    /// Deliver the next sample, or `None` once the stream is exhausted.
    fn get(&mut self) -> (r: Option<i64>)
        ensures
            match r {
                Some(s) => old(self).stream().len() > 0 && s == old(self).stream()[0]
                    && final(self).stream() == old(self).stream().drop_first(),
                None => old(self).stream().len() == 0
                    && final(self).stream() == old(self).stream(),
            },
    ;
}

/// A source backed by a materialized vector of samples.
pub struct VecSource {
    data: Vec<i64>,
    pos: usize,
}

impl VecSource {
    pub fn new(data: Vec<i64>) -> (r: VecSource)
        ensures
            r.stream() == data@,
    {
        let r = VecSource { data, pos: 0 };
        proof {
            assert(r.stream() =~= r.data@);
        }
        r
    }
}

impl Source for VecSource {
    closed spec fn stream(&self) -> Seq<i64> {
        if self.pos <= self.data@.len() {
            self.data@.skip(self.pos as int)
        } else {
            Seq::empty()
        }
    }

    fn get(&mut self) -> (r: Option<i64>)
    {
        if self.pos < self.data.len() {
            let s = self.data[self.pos];
            self.pos = self.pos + 1;
            proof {
                assert(final(self).stream() =~= old(self).stream().drop_first());
            }
            Some(s)
        } else {
            None
        }
    }
}

/// Build the decimated energy envelope by draining a sample source; the
/// result is the same envelope that `build_envelope` produces from the same
/// samples held in a vector.
pub fn build_envelope_source<S: Source>(src: &mut S, interval: u64) -> (nrg: Vec<u64>)
    requires
        1 <= interval <= crate::MAX_INTERVAL,
        old(src).stream().len() <= 0x4000_0000_0000,
        samples_bounded(old(src).stream()),
    ensures
        nrg@ == spec_envelope(old(src).stream(), interval as int),
        nrg@.len() == env_len(old(src).stream().len() as int, interval as int),
        envelope_bounded(nrg@),
        final(src).stream().len() == 0,
{
    let ghost s = src.stream();
    let ghost n = s.len();
    let mut nrg: Vec<u64> = Vec::new();
    let mut v: u64 = 0;
    let mut next_push: u64 = 0;
    let mut idx: u64 = 0;
    proof {
        assert(nrg@.len() * interval == 0);
    }
    loop
        invariant
            n == s.len(),
            n <= 0x4000_0000_0000,
            samples_bounded(s),
            1 <= interval <= crate::MAX_INTERVAL,
            0 <= idx <= n,
            src.stream() == s.skip(idx as int),
            v == env_after(s, idx as nat),
            0 <= v <= MAX_AMP_Q16,
            next_push == nrg@.len() * interval,
            idx <= next_push < idx + interval,
            forall|j: int| 0 <= j < nrg@.len() ==> nrg@[j] == env_after(s, (j * interval + 1) as nat),
        ensures
            idx == n,
            src.stream().len() == 0,
            next_push == nrg@.len() * interval,
            n <= next_push < n + interval,
            forall|j: int| 0 <= j < nrg@.len() ==> nrg@[j] == env_after(s, (j * interval + 1) as nat),
        decreases n - idx,
    {
        match src.get() {
            None => {
                break;
            },
            Some(sv) => {
                proof {
                    assert(s.skip(idx as int)[0] == s[idx as int]);
                    assert(s.skip(idx as int).drop_first() =~= s.skip(idx as int + 1));
                    assert(amp_abs(s[idx as int]) <= MAX_AMP_Q16);
                }
                let z: u64 = if sv < 0 {
                    (-sv) as u64
                } else {
                    sv as u64
                };
                proof {
                    assert(z == amp_abs(s[idx as int]));
                    crate::envelope::lemma_env_after_bounds(s, (idx + 1) as nat);
                }
                if z > v {
                    v = v + (z - v) / 8;
                } else {
                    v = v - (v - z) / 512;
                }
                assert(v == env_after(s, (idx + 1) as nat));
                if idx == next_push {
                    let ghost old_len = nrg@.len();
                    nrg.push(v);
                    proof {
                        assert(old_len * interval + 1 == idx + 1);
                        assert(nrg@.len() * interval == old_len * interval + interval)
                            by (nonlinear_arith)
                            requires nrg@.len() == old_len + 1;
                    }
                    next_push = next_push + interval;
                }
                idx = idx + 1;
            },
        }
    }
    proof {
        let iv = interval as int;
        let len = nrg@.len() as int;
        lemma_fundamental_div_mod_converse(
            n as int + iv - 1,
            iv,
            len,
            n as int + iv - 1 - len * iv,
        );
        assert(len == env_len(n as int, iv));
        assert forall|j: int| 0 <= j < nrg@.len() implies nrg@[j] == spec_envelope(s, iv)[j]
            && #[trigger] nrg@[j] <= MAX_AMP_Q16 by {
            assert(0 <= j * iv && j * iv + 1 <= n) by (nonlinear_arith)
                requires 0 <= j < len, len * iv < n + iv, iv >= 1;
            crate::envelope::lemma_env_after_bounds(s, (j * iv + 1) as nat);
        };
        assert(nrg@ =~= spec_envelope(s, iv));
    }
    nrg
}

} // verus!
