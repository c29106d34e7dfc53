use tempo::convert::{bpm_to_period, period_to_bpm};
use tempo::grid::candidate_grid;
use tempo::ratio::Ratio;
use tempo::Q16;

const RATE_44100: u64 = 44100 * Q16;

#[test]
fn ratio_same_value_on_equivalent_fractions() {
    let a = Ratio::new(1, 2);
    let b = Ratio::new(2, 4);
    let c = Ratio::new(1, 3);
    assert!(a.same_value(&b));
    assert!(!a.same_value(&c));
}

#[test]
fn ratio_ordering_by_value() {
    let third = Ratio::new(1, 3);
    let half = Ratio::new(1, 2);
    assert!(third.lt_value(&half));
    assert!(third.le_value(&half));
    assert!(half.le_value(&Ratio::new(2, 4)));
    assert!(!half.lt_value(&Ratio::new(2, 4)));
    assert!(!half.le_value(&third));
}

#[test]
fn ratio_to_q16_floors() {
    assert_eq!(Ratio::new(1, 3).to_q16(), 21845);
    assert_eq!(Ratio::new(7, 2).to_q16(), 229376);
    assert_eq!(Ratio::new(1, 1).to_q16(), 65536);
}

#[test]
fn bpm_to_period_exact_value() {
    // 120 BPM at 44100 Hz with decimation 64: 22050 samples per beat,
    // 344.53125 envelope entries per beat.
    let p = bpm_to_period(120 * Q16, 64, RATE_44100);
    assert_eq!(p.to_q16(), 22579200);
    let expected = Ratio::new(44100u128 * 60 * 65536, 120u128 * 65536 * 64);
    assert!(p.same_value(&expected));
}

#[test]
fn round_trip_is_exact_identity() {
    for &bpm in &[Q16, 50 * Q16, 120 * Q16, 7897088u64, 450 * Q16, 1023 * Q16] {
        for &interval in &[1u64, 8, 64, 4096] {
            for &rate in &[8000 * Q16, RATE_44100, 48000 * Q16] {
                let p = bpm_to_period(bpm, interval, rate);
                let back = period_to_bpm(p, interval, rate);
                let starting = Ratio::new(bpm as u128, 65536);
                assert!(back.same_value(&starting));
            }
        }
    }
}

#[test]
fn grid_is_strictly_monotonic_with_exact_endpoints() {
    let lower = 60 * Q16;
    let upper = 120 * Q16;
    let g = candidate_grid(lower, upper, 64, RATE_44100, 5);
    assert_eq!(g.len(), 5);
    for w in g.windows(2) {
        // entries share one denominator, so value order is numerator order
        assert_eq!(w[0].den, w[1].den);
        assert!(w[0].num < w[1].num);
    }
    let fastest = bpm_to_period(upper, 64, RATE_44100);
    let slowest = bpm_to_period(lower, 64, RATE_44100);
    assert!(g[0].same_value(&fastest));
    assert!(g[4].same_value(&slowest));
}

#[test]
fn grid_is_evenly_spaced() {
    let g = candidate_grid(60 * Q16, 120 * Q16, 64, RATE_44100, 7);
    let step = g[1].num - g[0].num;
    for w in g.windows(2) {
        assert_eq!(w[1].num - w[0].num, step);
    }
    assert!(step > 0);
}

#[test]
fn grid_with_one_step_holds_the_fast_endpoint() {
    let g = candidate_grid(60 * Q16, 120 * Q16, 64, RATE_44100, 1);
    assert_eq!(g.len(), 1);
    let fastest = bpm_to_period(120 * Q16, 64, RATE_44100);
    assert!(g[0].same_value(&fastest));
}
