use rand::SeedableRng;
use rand_distr::Distribution;

use walksynth::fixed::SCALE;
use walksynth::transcend::ln_fx;
use walksynth::ExponentialTranslator;
use walksynth::Fixed;
use walksynth::LogNormalTranslator;
use walksynth::NormalGenerator;
use walksynth::UniformTranslator;

fn tfx(v: f64) -> Fixed {
    Fixed::from_raw((v * (SCALE as f64)).round() as i64)
}

fn tf64(f: Fixed) -> f64 {
    f.raw() as f64 / (SCALE as f64)
}

#[test]
fn uniform_fold_rising_limb_is_fractional_part() {
    let mut g = NormalGenerator::new(tfx(0.0), tfx(1.0), tfx(1.0)).unwrap();
    g.set(tfx(1.0), tfx(-0.5));
    let mut u = UniformTranslator::new(g);
    // Degenerate gap: the walk repeats -0.5, whose magnitude folds to 0.5.
    assert_eq!(u.next(tfx(1.0), tfx(0.9)), Some(tfx(0.5)));
}

#[test]
fn uniform_fold_falling_limb_mirrors_fractional_part() {
    let mut g = NormalGenerator::new(tfx(0.0), tfx(1.0), tfx(1.0)).unwrap();
    g.set(tfx(1.0), tfx(1.75));
    let mut u = UniformTranslator::new(g);
    assert_eq!(u.next(tfx(1.0), tfx(0.9)), Some(tfx(0.25)));
}

#[test]
fn uniform_stays_in_unit_interval_for_ten_thousand_draws() {
    let nd = rand_distr::Normal::new(0.0, 1.0).unwrap();
    let mut rng = rand_hc::Hc128Rng::seed_from_u64(2024);
    let g = NormalGenerator::new(tfx(0.0), tfx(1.0), tfx(1.0)).unwrap();
    let mut u = UniformTranslator::new(g);
    for i in 0..10_000u32 {
        let t = tfx(i as f64 * 0.5);
        let z = tfx(nd.sample(&mut rng));
        let s = u.next(t, z).unwrap();
        assert!(0 <= s.raw() && s.raw() <= SCALE);
    }
}

#[test]
fn uniform_bridge_pins_exactly_on_the_rising_limb() {
    let mut g = NormalGenerator::new(tfx(0.0), tfx(1.0), tfx(1.0)).unwrap();
    g.set(tfx(0.0), tfx(0.3));
    let mut u = UniformTranslator::new(g);
    u.last_sample = tfx(0.3);
    // Zero remaining horizon: the walk pins on the unfolded target, whose
    // fold returns the pinned uniform value exactly.
    assert_eq!(u.next_interpolant(tfx(1.0), tfx(1.0), tfx(0.8), tfx(0.4)), Some(tfx(0.8)));
}

#[test]
fn uniform_bridge_pins_exactly_on_the_falling_limb() {
    let mut g = NormalGenerator::new(tfx(0.0), tfx(1.0), tfx(1.0)).unwrap();
    g.set(tfx(0.0), tfx(1.5));
    let mut u = UniformTranslator::new(g);
    u.last_sample = tfx(0.5);
    assert_eq!(u.next_interpolant(tfx(1.0), tfx(1.0), tfx(0.7), tfx(0.4)), Some(tfx(0.7)));
}

#[test]
fn uniform_bridge_without_anchor_ignores_the_pin() {
    let nd = rand_distr::Normal::new(0.0, 1.0).unwrap();
    let mut rng1 = rand_hc::Hc128Rng::seed_from_u64(5);
    let mut rng2 = rand_hc::Hc128Rng::seed_from_u64(5);
    let z1 = tfx(nd.sample(&mut rng1));
    let z2 = tfx(nd.sample(&mut rng2));
    let g = NormalGenerator::new(tfx(0.0), tfx(1.0), tfx(1.0)).unwrap();
    let mut ua = UniformTranslator::new(g);
    let mut ub = UniformTranslator::new(g);
    let bridged = ua.next_interpolant(tfx(1.0), tfx(5.0), tfx(0.9), z1);
    let free = ub.next(tfx(1.0), z2);
    assert_eq!(bridged, free);
    assert!(bridged.is_some());
}

#[test]
fn exponential_new_rejects_nonpositive_mean() {
    let g = NormalGenerator::new(tfx(0.0), tfx(1.0), tfx(1.0)).unwrap();
    let u = UniformTranslator::new(g);
    assert!(ExponentialTranslator::new(tfx(0.0), u).is_none());
    assert!(ExponentialTranslator::new(tfx(-1.0), u).is_none());
    assert!(ExponentialTranslator::new(tfx(2.0), u).is_some());
}

#[test]
fn exponential_next_is_inverse_transform_of_uniform() {
    let mut g = NormalGenerator::new(tfx(0.0), tfx(1.0), tfx(1.0)).unwrap();
    g.set(tfx(0.0), tfx(0.5));
    let u = UniformTranslator::new(g);
    let mut e = ExponentialTranslator::new(tfx(2.0), u).unwrap();
    let mut u2 = e.translator;
    let z = tfx(0.37);
    let sample = e.next(tfx(1.0), z).unwrap();
    let uv = u2.next(tfx(1.0), z).unwrap();
    let expected = tfx(2.0).neg().unwrap().mul(&ln_fx(&uv).unwrap()).unwrap();
    assert_eq!(sample, expected);
}

#[test]
fn exponential_fails_on_zero_uniform_sample() {
    // A degenerate gap repeats a zero anchor, which folds to zero, and a
    // zero sample has no logarithm.
    let mut g = NormalGenerator::new(tfx(0.0), tfx(1.0), tfx(1.0)).unwrap();
    g.set(tfx(1.0), tfx(0.0));
    let u = UniformTranslator::new(g);
    let mut e = ExponentialTranslator::new(tfx(2.0), u).unwrap();
    assert_eq!(e.next(tfx(1.0), tfx(0.4)), None);
}

#[test]
fn exponential_bridge_round_trips_at_zero_horizon() {
    let mut g = NormalGenerator::new(tfx(0.0), tfx(1.0), tfx(1.0)).unwrap();
    g.set(tfx(0.0), tfx(0.3));
    let mut u = UniformTranslator::new(g);
    u.last_sample = tfx(0.3);
    let mut e = ExponentialTranslator::new(tfx(2.0), u).unwrap();
    let r = e.next_interpolant(tfx(1.0), tfx(1.0), tfx(1.5), tfx(0.7)).unwrap();
    assert!((tf64(r) - 1.5).abs() < 1e-3);
}

#[test]
fn exponential_rejects_bad_times() {
    let g = NormalGenerator::new(tfx(0.0), tfx(1.0), tfx(1.0)).unwrap();
    let u = UniformTranslator::new(g);
    let mut e = ExponentialTranslator::new(tfx(2.0), u).unwrap();
    assert_eq!(e.next(tfx(-1.0), tfx(0.1)), None);
    assert_eq!(e.next_interpolant(tfx(-1.0), tfx(2.0), tfx(1.0), tfx(0.1)), None);
    assert_eq!(e.next_interpolant(tfx(3.0), tfx(2.0), tfx(1.0), tfx(0.1)), None);
}

#[test]
fn lognormal_next_forwards_the_raw_walk_value() {
    let nd = rand_distr::Normal::new(0.0, 1.0).unwrap();
    let mut rng = rand_hc::Hc128Rng::seed_from_u64(11);
    let z = tfx(nd.sample(&mut rng));
    let g = NormalGenerator::new(tfx(0.0), tfx(1.0), tfx(1.0)).unwrap();
    let mut l = LogNormalTranslator::new(g);
    // The free path hands the log-space sample out unchanged.
    assert_eq!(l.next(tfx(0.0), z), Some(z));
}

#[test]
fn lognormal_rejects_nonpositive_pin() {
    let mut g = NormalGenerator::new(tfx(0.0), tfx(1.0), tfx(1.0)).unwrap();
    g.set(tfx(0.0), tfx(0.5));
    let mut l = LogNormalTranslator::new(g);
    assert_eq!(l.next_interpolant(tfx(1.0), tfx(2.0), tfx(0.0), tfx(0.2)), None);
    assert_eq!(l.next_interpolant(tfx(1.0), tfx(2.0), tfx(-3.0), tfx(0.2)), None);
    assert_eq!(l.generator.last(), Some(tfx(0.5)));
}

#[test]
fn lognormal_rejects_bad_times() {
    let g = NormalGenerator::new(tfx(0.0), tfx(1.0), tfx(1.0)).unwrap();
    let mut l = LogNormalTranslator::new(g);
    assert_eq!(l.next(tfx(-1.0), tfx(0.2)), None);
    assert_eq!(l.next_interpolant(tfx(3.0), tfx(2.0), tfx(1.0), tfx(0.2)), None);
}

#[test]
fn lognormal_bridge_round_trips_at_zero_horizon() {
    let mut g = NormalGenerator::new(tfx(0.0), tfx(1.0), tfx(1.0)).unwrap();
    g.set(tfx(0.0), tfx(0.5));
    let mut l = LogNormalTranslator::new(g);
    let r = l.next_interpolant(tfx(1.0), tfx(1.0), tfx(3.0), tfx(0.7)).unwrap();
    assert!((tf64(r) - 3.0).abs() < 1e-3);
}

#[test]
fn full_chain_replay_with_same_seed_is_identical() {
    let nd = rand_distr::Normal::new(0.0, 1.0).unwrap();
    let mut rng1 = rand_hc::Hc128Rng::seed_from_u64(99);
    let mut rng2 = rand_hc::Hc128Rng::seed_from_u64(99);
    let g = NormalGenerator::new(tfx(0.1), tfx(1.0), tfx(1.0)).unwrap();
    let mut e1 = ExponentialTranslator::new(tfx(3.0), UniformTranslator::new(g)).unwrap();
    let mut e2 = ExponentialTranslator::new(tfx(3.0), UniformTranslator::new(g)).unwrap();
    for i in 0..50u32 {
        let t = tfx(i as f64 + 0.5);
        let z1 = tfx(nd.sample(&mut rng1));
        let z2 = tfx(nd.sample(&mut rng2));
        assert_eq!(e1.next(t, z1), e2.next(t, z2));
    }
}
