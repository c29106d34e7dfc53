use tempo::estimator::Naive;
use tempo::ratio::Ratio;
use tempo::source::VecSource;
use tempo::Q16;

const RATE_44100: u64 = 44100 * Q16;

fn small_config() -> Naive {
    Naive {
        lower: 50 * Q16,
        upper: 450 * Q16,
        interval: 128,
        rate: RATE_44100,
        steps: 100,
        samples: 64,
    }
}

fn bpm_of(r: &Ratio) -> f64 {
    r.num as f64 / r.den as f64
}

/// Energy impulses spaced at exactly `60 / bpm * rate` samples.
fn click_track(bpm: u64, rate: u64, beats: u64) -> Vec<i64> {
    let spacing = rate * 60 / bpm;
    let n = spacing * beats;
    let mut samples = vec![0i64; n as usize];
    let mut beat_start = 0u64;
    while beat_start < n {
        for k in 0..200 {
            let idx = beat_start + k;
            if idx < n {
                samples[idx as usize] = 65536;
            }
        }
        beat_start += spacing;
    }
    samples
}

#[test]
fn config_constructors_are_valid() {
    for cfg in [Naive::default(), Naive::fine(), Naive::rough()] {
        assert_eq!(cfg.lower, 50 * Q16);
        assert_eq!(cfg.upper, 450 * Q16);
        assert_eq!(cfg.rate, RATE_44100);
        assert!(Naive::new(
            cfg.lower,
            cfg.upper,
            cfg.interval,
            cfg.rate,
            cfg.steps,
            cfg.samples
        )
        .is_some());
    }
    assert_eq!(Naive::default().interval, 64);
    assert_eq!(Naive::fine().interval, 8);
    assert_eq!(Naive::rough().interval, 128);
}

#[test]
fn config_violations_are_rejected_at_construction() {
    // lower >= upper
    assert!(Naive::new(120 * Q16, 120 * Q16, 64, RATE_44100, 800, 1024).is_none());
    assert!(Naive::new(200 * Q16, 100 * Q16, 64, RATE_44100, 800, 1024).is_none());
    // zero is not a positive value
    assert!(Naive::new(0, 450 * Q16, 64, RATE_44100, 800, 1024).is_none());
    assert!(Naive::new(50 * Q16, 450 * Q16, 0, RATE_44100, 800, 1024).is_none());
    assert!(Naive::new(50 * Q16, 450 * Q16, 64, 0, 800, 1024).is_none());
    assert!(Naive::new(50 * Q16, 450 * Q16, 64, RATE_44100, 0, 1024).is_none());
    assert!(Naive::new(50 * Q16, 450 * Q16, 64, RATE_44100, 800, 0).is_none());
    // beyond the capacity bounds
    assert!(Naive::new(50 * Q16, 2048 * Q16, 64, RATE_44100, 800, 1024).is_none());
    assert!(Naive::new(50 * Q16, 450 * Q16, 8192, RATE_44100, 800, 1024).is_none());
    // a valid one passes through unchanged
    let cfg = Naive::new(50 * Q16, 450 * Q16, 64, RATE_44100, 800, 1024).unwrap();
    assert_eq!(cfg.steps, 800);
    assert_eq!(cfg.samples, 1024);
}

#[test]
fn empty_input_yields_the_first_candidate() {
    let cfg = small_config();
    let r = cfg.analyse_vec(&Vec::new(), 12345);
    // the first candidate is the period of `upper`, so the estimate is
    // exactly the upper BPM bound
    let upper = Ratio::new(cfg.upper as u128, 65536);
    assert!(r.same_value(&upper));
}

#[test]
fn all_silent_input_yields_the_first_candidate() {
    let cfg = small_config();
    let samples = vec![0i64; 40000];
    let r = cfg.analyse_vec(&samples, 5);
    let upper = Ratio::new(cfg.upper as u128, 65536);
    assert!(r.same_value(&upper));
}

#[test]
fn identical_inputs_and_seed_give_identical_estimates() {
    let cfg = small_config();
    let samples: Vec<i64> = (0..40000).map(|i: i64| (i * 131) % 131072 - 65536).collect();
    let a = cfg.analyse_vec(&samples, 777);
    let b = cfg.analyse_vec(&samples, 777);
    assert_eq!(a.num, b.num);
    assert_eq!(a.den, b.den);
}

#[test]
fn estimate_always_lies_within_the_search_range() {
    let cfg = small_config();
    for seed in [0u64, 1, 99, u64::MAX] {
        let samples: Vec<i64> = (0..30000)
            .map(|i: i64| ((i * 7919) % 131072) - 65536)
            .collect();
        let r = cfg.analyse_vec(&samples, seed);
        let lower = Ratio::new(cfg.lower as u128, 65536);
        let upper = Ratio::new(cfg.upper as u128, 65536);
        assert!(lower.le_value(&r));
        assert!(r.le_value(&upper));
    }
}

#[test]
fn source_and_vector_paths_agree() {
    let cfg = small_config();
    let samples: Vec<i64> = (0..40000).map(|i: i64| (i * 211) % 131072 - 65536).collect();
    let from_vec = cfg.analyse_vec(&samples, 31337);
    let mut src = VecSource::new(samples);
    let from_src = cfg.analyse(&mut src, 31337);
    assert_eq!(from_vec.num, from_src.num);
    assert_eq!(from_vec.den, from_src.den);
}

#[test]
fn click_track_recovers_the_target_tempo() {
    let target = 120u64;
    let samples = click_track(target, 44100, 16);
    let cfg = Naive {
        lower: 60 * Q16,
        upper: 240 * Q16,
        interval: 64,
        rate: RATE_44100,
        steps: 400,
        samples: 256,
    };
    let r = cfg.analyse_vec(&samples, 2024);
    let got = bpm_of(&r);
    let err = (got - target as f64).abs() / target as f64;
    assert!(err <= 0.05, "estimated {got} BPM for a {target} BPM click track");
}

#[test]
fn click_track_estimate_is_reproducible_across_seeds_roughly() {
    // different seeds probe different offsets, but a clean click track
    // should stay near the target either way
    let samples = click_track(100, 44100, 12);
    let cfg = Naive {
        lower: 60 * Q16,
        upper: 240 * Q16,
        interval: 64,
        rate: RATE_44100,
        steps: 300,
        samples: 192,
    };
    for seed in [1u64, 2, 3] {
        let got = bpm_of(&cfg.analyse_vec(&samples, seed));
        let err = (got - 100.0).abs() / 100.0;
        assert!(err <= 0.05, "estimated {got} BPM for a 100 BPM click track");
    }
}
