//! A small, seedable xorshift generator for the probe offsets.
//!
//! The random probe positions only have to be well spread and reproducible:
//! the caller passes a seed into the analysis, and the same seed, samples
//! and configuration always give the same estimate. Offsets are drawn for
//! all candidates up front, in candidate order, before any scoring starts,
//! so the draw order is part of the contract.

use vstd::prelude::*;

verus! {

/// One xorshift step on a 64-bit state.
pub open spec fn spec_rng_next(s: u64) -> u64 {
    let a = s ^ (s << 13u64);
    let b = a ^ (a >> 7u64);
    b ^ (b << 17u64)
}

/// The generator state after `k` draws from initial state `s0`.
pub open spec fn spec_rng_at(s0: u64, k: nat) -> u64
    decreases k,
{
    if k == 0 {
        s0
    } else {
        spec_rng_next(spec_rng_at(s0, (k - 1) as nat))
    }
}

/// The initial state for a seed; the offset keeps a zero seed away from the
/// xorshift fixed point at state zero.
pub open spec fn spec_rng_init(seed: u64) -> u64 {
    seed ^ 0x9E37_79B9_7F4A_7C15u64
}

/// The `k`-th probe offset drawn from initial state `s0`, as a Q16
/// fixed-point position in `[0, len_q16)`. An empty envelope has no valid
/// positions; every probe then sits at offset 0, which the boundary policy
/// of the scorer treats as out of range.
pub open spec fn spec_offset(s0: u64, k: nat, len_q16: u64) -> u64 {
    if len_q16 == 0 {
        0
    } else {
        spec_rng_at(s0, k + 1) % len_q16
    }
}

/// Drawing `a` values and then `b` more is the same as drawing `a + b`.
pub proof fn lemma_rng_at_add(s0: u64, a: nat, b: nat)
    ensures
        spec_rng_at(s0, a + b) == spec_rng_at(spec_rng_at(s0, a), b),
    decreases b,
{
    if b > 0 {
        lemma_rng_at_add(s0, a, (b - 1) as nat);
    }
}

/// The xorshift generator.
pub struct Rng {
    pub state: u64,
}

impl Rng {
    pub fn new(seed: u64) -> (r: Rng)
        ensures
            r.state == spec_rng_init(seed),
    {
        Rng { state: seed ^ 0x9E37_79B9_7F4A_7C15u64 }
    }

    /// Advance the state by one xorshift step and return it.
    pub fn next_u64(&mut self) -> (r: u64)
        ensures
            final(self).state == spec_rng_next(old(self).state),
            r == final(self).state,
    {
        let mut s = self.state;
        s = s ^ (s << 13u64);
        s = s ^ (s >> 7u64);
        s = s ^ (s << 17u64);
        self.state = s;
        s
    }

    /// Draw `count` probe offsets into `[0, len_q16)`, in stream order.
    pub fn draw_offsets(&mut self, count: u32, len_q16: u64) -> (offs: Vec<u64>)
        ensures
            offs@.len() == count,
            forall|j: int| 0 <= j < count ==> offs@[j] == spec_offset(
                old(self).state,
                j as nat,
                len_q16,
            ),
            len_q16 > 0 ==> forall|j: int| 0 <= j < count ==> offs@[j] < len_q16,
            final(self).state == spec_rng_at(old(self).state, count as nat),
    {
        let ghost s0 = self.state;
        let mut offs: Vec<u64> = Vec::new();
        let mut j: u32 = 0;
        while j < count
            invariant
                0 <= j <= count,
                offs@.len() == j,
                self.state == spec_rng_at(s0, j as nat),
                forall|jj: int| 0 <= jj < j ==> offs@[jj] == spec_offset(s0, jj as nat, len_q16),
                len_q16 > 0 ==> forall|jj: int| 0 <= jj < j ==> offs@[jj] < len_q16,
            decreases count - j,
        {
            let v = self.next_u64();
            let off: u64 = if len_q16 == 0 {
                0
            } else {
                v % len_q16
            };
            offs.push(off);
            j = j + 1;
        }
        offs
    }
}

} // verus!
