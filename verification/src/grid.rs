//! The candidate period grid.
//!
//! A BPM search range `[lower, upper]` maps to a period range: `upper` gives
//! the shortest ("fastest") period and `lower` the longest ("slowest"). The
//! grid holds `steps` evenly spaced periods from fastest to slowest, both
//! endpoints included. All entries are exact rationals over one common
//! denominator `upper * lower * interval * (steps - 1)`, so even spacing and
//! strict monotonicity are exact statements, not approximations.

use crate::convert::spec_bpm_to_period;
use crate::ratio::{ratio_eq, ratio_lt, Ratio};
use crate::{MAX_BPM_Q16, MAX_INTERVAL, MAX_RATE_Q16, MAX_STEPS};
use vstd::prelude::*;

verus! {

/// The common denominator of the grid entries (`steps >= 2`).
pub open spec fn grid_den(lower: u64, upper: u64, interval: u64, steps: u32) -> int {
    upper * lower * interval * (steps - 1)
}

/// The numerator of entry `i`, divided by the shared factor `60 * rate`:
/// interpolates from `lower * (steps - 1)` at the fast end to
/// `upper * (steps - 1)` at the slow end.
pub open spec fn grid_m(lower: u64, upper: u64, steps: u32, i: int) -> int {
    lower * (steps - 1) + i * (upper - lower)
}

/// The grid of candidate periods, fastest first. A single-step grid holds
/// only the period of `upper`.
pub open spec fn spec_grid(lower: u64, upper: u64, interval: u64, rate: u64, steps: u32) -> Seq<
    Ratio,
> {
    if steps == 1 {
        seq![spec_bpm_to_period(upper, interval, rate)]
    } else {
        Seq::new(steps as nat, |i: int| Ratio {
            num: (60 * rate * grid_m(lower, upper, steps, i)) as u128,
            den: grid_den(lower, upper, interval, steps) as u128,
        })
    }
}

/// Configuration bounds under which the grid arithmetic is exact.
pub open spec fn grid_args_wf(lower: u64, upper: u64, interval: u64, rate: u64, steps: u32) -> bool {
    &&& 1 <= lower < upper <= MAX_BPM_Q16
    &&& 1 <= interval <= MAX_INTERVAL
    &&& 1 <= rate <= MAX_RATE_Q16
    &&& 1 <= steps <= MAX_STEPS
}

/// Lay the grid of `steps` candidate periods over the BPM range, fastest
/// (the period of `upper`) to slowest (the period of `lower`), strictly
/// monotonic and exactly hitting both converted endpoints.
pub fn candidate_grid(lower: u64, upper: u64, interval: u64, rate: u64, steps: u32) -> (g: Vec<
    Ratio,
>)
    requires
        grid_args_wf(lower, upper, interval, rate, steps),
    ensures
        g@ == spec_grid(lower, upper, interval, rate, steps),
        g@.len() == steps,
        forall|i: int| 0 <= i < steps ==> (#[trigger] g@[i]).wf(),
        forall|i: int| 0 <= i < steps ==> (#[trigger] g@[i]).num <= 60 * rate * g@[i].den,
        forall|i: int| 0 <= i < steps ==> (#[trigger] g@[i]).num < 0x2000_0000_0000_0000_0000
            && g@[i].den < 0x1_0000_0000_0000_0000_0000,
        forall|i: int| 0 <= i < steps - 1 ==> ratio_lt(#[trigger] g@[i], g@[i + 1]),
        ratio_eq(g@[0], spec_bpm_to_period(upper, interval, rate)),
        steps >= 2 ==> ratio_eq(g@[steps - 1], spec_bpm_to_period(lower, interval, rate)),
{
    let mut g: Vec<Ratio> = Vec::new();
    if steps == 1 {
        let p = crate::convert::bpm_to_period(upper, interval, rate);
        g.push(p);
        proof {
            assert(g@ =~= spec_grid(lower, upper, interval, rate, steps));
            assert(p.num <= 60 * rate * p.den) by (nonlinear_arith)
                requires p.num == 60 * rate, p.den >= 1, rate >= 1;
            assert(1 <= upper * interval < 0x1_0000_0000_0000_0000_0000) by (nonlinear_arith)
                requires 1 <= upper <= 0x400_0000, 1 <= interval <= 4096;
            assert(p.den < 0x1_0000_0000_0000_0000_0000);
            assert(ratio_eq(p, p));
        }
        return g;
    }
    let sm1: u128 = (steps - 1) as u128;
    let lo: u128 = lower as u128;
    let hi: u128 = upper as u128;
    let ghost den_int = grid_den(lower, upper, interval, steps);
    proof {
        assert(hi * lo * (interval as u128) * sm1 == den_int && 1 <= den_int
            < 0x1_0000_0000_0000_0000_0000 && upper * (steps - 1) <= den_int
            && hi * lo < 0x10_0000_0000_0000
            && hi * lo * (interval as u128) < 0x1_0000_0000_0000_0000_0000) by (nonlinear_arith)
            requires
                den_int == upper * lower * interval * (steps - 1),
                sm1 == steps - 1,
                lo == lower,
                hi == upper,
                1 <= lower < upper <= 0x400_0000,
                1 <= interval <= 4096,
                2 <= steps <= 2048,
        ;
    }
    let den: u128 = hi * lo * (interval as u128) * sm1;
    let base: u128 = 60u128 * (rate as u128);
    let dm: u128 = (upper - lower) as u128;
    let mut i: u32 = 0;
    while i < steps
        invariant
            grid_args_wf(lower, upper, interval, rate, steps),
            steps >= 2,
            sm1 == steps - 1,
            lo == lower,
            hi == upper,
            dm == upper - lower,
            base == 60 * rate,
            den == grid_den(lower, upper, interval, steps),
            1 <= den < 0x1_0000_0000_0000_0000_0000,
            upper * (steps - 1) <= den,
            0 <= i <= steps,
            g@.len() == i,
            forall|k: int| 0 <= k < i ==> g@[k] == spec_grid(lower, upper, interval, rate, steps)[k],
            forall|k: int| 0 <= k < i ==> (#[trigger] g@[k]).wf(),
            forall|k: int| 0 <= k < i ==> (#[trigger] g@[k]).num <= 60 * rate * g@[k].den,
        decreases steps - i,
    {
        let ghost m_int = grid_m(lower, upper, steps, i as int);
        proof {
            assert(lo * sm1 + (i as u128) * dm == m_int && 1 <= m_int <= upper * (steps - 1)
                && m_int < 0x80_0000_0000) by (nonlinear_arith)
                requires
                    m_int == lower * (steps - 1) + i * (upper - lower),
                    sm1 == steps - 1,
                    lo == lower,
                    hi == upper,
                    dm == upper - lower,
                    1 <= lower < upper <= 0x400_0000,
                    2 <= steps <= 2048,
                    0 <= i < steps,
            ;
            assert(base * (lo * sm1 + (i as u128) * dm) == 60 * rate * m_int
                && 1 <= 60 * rate * m_int <= 60 * rate * den
                && 60 * rate * m_int < 0x1_0000_0000_0000_0000_0000_0000) by (nonlinear_arith)
                requires
                    base == 60 * rate,
                    1 <= rate <= 0x1_0000_0000,
                    lo * sm1 + (i as u128) * dm == m_int,
                    1 <= m_int <= den,
                    m_int < 0x80_0000_0000,
            ;
        }
        let num: u128 = base * (lo * sm1 + (i as u128) * dm);
        g.push(Ratio { num, den });
        i = i + 1;
    }
    proof {
        let s = spec_grid(lower, upper, interval, rate, steps);
        assert(g@ =~= s);
        let d = den_int;
        assert forall|k: int| 0 <= k < steps implies (#[trigger] g@[k]).num == 60 * rate * grid_m(
            lower,
            upper,
            steps,
            k,
        ) && g@[k].den == d && g@[k].num < 0x2000_0000_0000_0000_0000 by {
            let mk = grid_m(lower, upper, steps, k);
            assert(0 < 60 * rate * mk < 0x2000_0000_0000_0000_0000) by (nonlinear_arith)
                requires
                    mk == lower * (steps - 1) + k * (upper - lower),
                    1 <= lower < upper <= 0x400_0000,
                    2 <= steps <= 2048,
                    0 <= k < steps,
                    1 <= rate <= 0x1_0000_0000,
            ;
        };
        assert forall|k: int| 0 <= k < steps - 1 implies ratio_lt(#[trigger] g@[k], g@[k + 1]) by {
            let ma = grid_m(lower, upper, steps, k);
            let mb = grid_m(lower, upper, steps, k + 1);
            assert(ma < mb && 0 < ma) by (nonlinear_arith)
                requires
                    ma == lower * (steps - 1) + k * (upper - lower),
                    mb == lower * (steps - 1) + (k + 1) * (upper - lower),
                    1 <= lower < upper,
                    0 <= k,
                    steps >= 2,
            ;
            assert(g@[k].num * g@[k + 1].den < g@[k + 1].num * g@[k].den) by (nonlinear_arith)
                requires
                    g@[k].num == 60 * rate * ma,
                    g@[k + 1].num == 60 * rate * mb,
                    g@[k].den == d,
                    g@[k + 1].den == d,
                    0 < ma < mb,
                    1 <= rate,
                    1 <= d,
            ;
        };
        let pb_u = spec_bpm_to_period(upper, interval, rate);
        let pb_l = spec_bpm_to_period(lower, interval, rate);
        assert(upper * interval < 0x4000_0000_0000 && lower * interval < 0x4000_0000_0000)
            by (nonlinear_arith)
            requires 1 <= lower < upper <= 0x400_0000, 1 <= interval <= 4096;
        assert(pb_u.den == upper * interval && pb_l.den == lower * interval && pb_u.num == 60 * rate
            && pb_l.num == 60 * rate);
        let m0 = grid_m(lower, upper, steps, 0);
        assert(g@[0].num * pb_u.den == pb_u.num * g@[0].den) by (nonlinear_arith)
            requires
                g@[0].num == 60 * rate * m0,
                g@[0].den == d,
                pb_u.num == 60 * rate,
                pb_u.den == upper * interval,
                m0 == lower * (steps - 1) + 0 * (upper - lower),
                d == upper * lower * interval * (steps - 1),
        ;
        assert(ratio_eq(g@[0], pb_u));
        let ml = grid_m(lower, upper, steps, steps - 1);
        assert(g@[steps - 1].num * pb_l.den == pb_l.num * g@[steps - 1].den) by (nonlinear_arith)
            requires
                g@[steps - 1].num == 60 * rate * ml,
                g@[steps - 1].den == d,
                pb_l.num == 60 * rate,
                pb_l.den == lower * interval,
                ml == lower * (steps - 1) + (steps - 1) * (upper - lower),
                d == upper * lower * interval * (steps - 1),
                steps >= 2,
        ;
        assert(ratio_eq(g@[steps - 1], pb_l));
    }
    g
}

} // verus!
