//! Conversion between a BPM value and a beat period in envelope-sample units.
//!
//! A tempo of `bpm` beats per minute at `rate` samples per second means
//! `rate * 60 / bpm` input samples per beat, which is `rate * 60 / (bpm *
//! interval)` envelope entries per beat once the envelope decimates by
//! `interval`. BPM values enter in Q16 fixed point and the period comes out
//! as an exact rational, so the two directions are exact inverses.

use crate::ratio::{ratio_eq, Ratio};
use crate::{MAX_BPM_Q16, MAX_INTERVAL, MAX_RATE_Q16};
use vstd::prelude::*;

verus! {

/// The beat period, in envelope-sample units, of a tempo of `bpm / 65536`
/// beats per minute: `(rate / 65536) * 60 / ((bpm / 65536) * interval)`,
/// in which the two fixed-point scales cancel.
pub open spec fn spec_bpm_to_period(bpm: u64, interval: u64, rate: u64) -> Ratio {
    Ratio { num: (60 * rate) as u128, den: (bpm * interval) as u128 }
}

/// The tempo, in Q16 fixed-point BPM, of a beat period of `p`
/// envelope-sample units: `65536 * (rate / 65536) * 60 / (p * interval)`.
pub open spec fn spec_period_to_bpm(p: Ratio, interval: u64, rate: u64) -> Ratio {
    Ratio {
        num: (60 * rate * p.den) as u128,
        den: (p.num * interval * 65536) as u128,
    }
}

/// Convert a BPM bound to the beat period it implies.
pub fn bpm_to_period(bpm: u64, interval: u64, rate: u64) -> (r: Ratio)
    requires
        1 <= bpm,
        1 <= interval,
        1 <= rate,
    ensures
        r == spec_bpm_to_period(bpm, interval, rate),
        r.wf(),
{
    proof {
        assert(1 <= bpm * interval <= u128::MAX) by (nonlinear_arith)
            requires 1 <= bpm <= u64::MAX, 1 <= interval <= u64::MAX;
    }
    Ratio { num: 60u128 * (rate as u128), den: (bpm as u128) * (interval as u128) }
}

/// Convert a beat period back to the tempo it implies, in Q16 fixed-point
/// BPM (the result's value times 65536 is the BPM).
pub fn period_to_bpm(p: Ratio, interval: u64, rate: u64) -> (r: Ratio)
    requires
        p.wf(),
        1 <= interval,
        1 <= rate,
        60 * rate * p.den <= u128::MAX,
        p.num * interval * 65536 <= u128::MAX,
    ensures
        r == spec_period_to_bpm(p, interval, rate),
        r.wf(),
{
    proof {
        assert(1 <= 60 * rate * p.den) by (nonlinear_arith)
            requires 1 <= rate, 1 <= p.den;
        assert(1 <= p.num * interval * 65536) by (nonlinear_arith)
            requires 1 <= p.num, 1 <= interval;
    }
    Ratio {
        num: 60u128 * (rate as u128) * p.den,
        den: p.num * (interval as u128) * 65536u128,
    }
}

/// Round trip: converting a BPM value to its beat period and back yields
/// exactly the starting BPM value (as rational numbers; the Q16 result is
/// compared against `bpm / 65536`).
pub proof fn lemma_bpm_round_trip(bpm: u64, interval: u64, rate: u64)
    requires
        1 <= bpm <= MAX_BPM_Q16,
        1 <= interval <= MAX_INTERVAL,
        1 <= rate <= MAX_RATE_Q16,
    ensures
        ratio_eq(
            spec_period_to_bpm(spec_bpm_to_period(bpm, interval, rate), interval, rate),
            Ratio { num: bpm as u128, den: 65536 },
        ),
{
    let p = spec_bpm_to_period(bpm, interval, rate);
    assert(60 * rate <= 0x6_0000_0000_0000_0000) by (nonlinear_arith)
        requires rate <= MAX_RATE_Q16;
    assert(bpm * interval < 0x1_0000_0000_0000) by (nonlinear_arith)
        requires bpm <= MAX_BPM_Q16, interval <= MAX_INTERVAL;
    assert(p.num == 60 * rate && p.den == bpm * interval);
    let back = spec_period_to_bpm(p, interval, rate);
    assert(60 * rate * p.den < 0x1_0000_0000_0000_0000_0000_0000_0000_0000) by (nonlinear_arith)
        requires p.den < 0x1_0000_0000_0000, rate <= MAX_RATE_Q16;
    assert(p.num * interval * 65536 < 0x1_0000_0000_0000_0000_0000_0000_0000_0000)
        by (nonlinear_arith)
        requires p.num <= 0x6_0000_0000_0000_0000, interval <= MAX_INTERVAL;
    assert(back.num == 60 * rate * (bpm * interval));
    assert(back.den == (60 * rate) * interval * 65536);
    assert(60 * rate * (bpm * interval) * 65536 == bpm * ((60 * rate) * interval * 65536))
        by (nonlinear_arith);
}

} // verus!
