use tempo::envelope::build_envelope;
use tempo::rng::Rng;
use tempo::score::{sample_at, score_candidate};
use tempo::source::{Source, VecSource};

#[test]
fn envelope_attack_and_decay_are_exact() {
    // One full-scale sample, then silence: one attack step of an eighth of
    // the gap, then decay steps of a 512th of the gap, all in integers.
    let samples: Vec<i64> = vec![65536, 0, 0, 0];
    let nrg = build_envelope(&samples, 1);
    assert_eq!(nrg, vec![8192, 8176, 8161, 8146]);
}

#[test]
fn envelope_uses_absolute_value() {
    let positive = build_envelope(&vec![65536, 32768], 1);
    let negative = build_envelope(&vec![-65536, -32768], 1);
    assert_eq!(positive, negative);
}

#[test]
fn envelope_decimation_keeps_every_interval_th_value() {
    let samples: Vec<i64> = vec![65536, 0, 0, 0];
    let full = build_envelope(&samples, 1);
    let halved = build_envelope(&samples, 2);
    assert_eq!(halved, vec![full[0], full[2]]);
    // ceil(4 / 3) entries for interval 3
    assert_eq!(build_envelope(&samples, 3), vec![full[0], full[3]]);
}

#[test]
fn envelope_of_empty_input_is_empty() {
    let nrg = build_envelope(&Vec::new(), 64);
    assert!(nrg.is_empty());
}

#[test]
fn vec_source_drains_in_order() {
    let mut src = VecSource::new(vec![1, -2, 3]);
    assert_eq!(src.get(), Some(1));
    assert_eq!(src.get(), Some(-2));
    assert_eq!(src.get(), Some(3));
    assert_eq!(src.get(), None);
    assert_eq!(src.get(), None);
}

#[test]
fn sample_at_boundary_policy() {
    let nrg: Vec<u64> = vec![10, 20, 30];
    assert_eq!(sample_at(&nrg, 0), 10);
    assert_eq!(sample_at(&nrg, 65535), 10);
    assert_eq!(sample_at(&nrg, 65536), 20);
    assert_eq!(sample_at(&nrg, 2 * 65536 + 12345), 30);
    assert_eq!(sample_at(&nrg, 3 * 65536), 0);
    assert_eq!(sample_at(&nrg, u64::MAX / 2), 0);
}

#[test]
fn rng_is_reproducible_for_a_seed() {
    let mut a = Rng::new(42);
    let mut b = Rng::new(42);
    for _ in 0..16 {
        assert_eq!(a.next_u64(), b.next_u64());
    }
    let mut c = Rng::new(43);
    let first_a = Rng::new(42).next_u64();
    assert_ne!(c.next_u64(), first_a);
}

#[test]
fn offsets_stay_inside_the_envelope_range() {
    let mut rng = Rng::new(7);
    let len_q16 = 10 * 65536;
    let offs = rng.draw_offsets(1000, len_q16);
    assert_eq!(offs.len(), 1000);
    assert!(offs.iter().all(|&o| o < len_q16));
    // an empty envelope pins every offset to zero
    let mut rng2 = Rng::new(7);
    let zeros = rng2.draw_offsets(10, 0);
    assert!(zeros.iter().all(|&o| o == 0));
}

#[test]
fn scoring_same_candidate_twice_gives_identical_scores() {
    let samples: Vec<i64> = (0..4096).map(|i: i64| (i * 37) % 65536 - 32768).collect();
    let nrg = build_envelope(&samples, 8);
    let mut rng = Rng::new(99);
    let offs = rng.draw_offsets(256, (nrg.len() as u64) * 65536);
    let p = 22579200;
    let first = score_candidate(&nrg, p, &offs);
    let second = score_candidate(&nrg, p, &offs);
    assert_eq!(first, second);
}

#[test]
fn scoring_empty_envelope_gives_zero() {
    let nrg: Vec<u64> = Vec::new();
    let offs: Vec<u64> = vec![0, 65536, 123456];
    assert_eq!(score_candidate(&nrg, 1000, &offs), 0);
}
