use rand::SeedableRng;
use rand_distr::Distribution;

use walksynth::fixed::SCALE;
use walksynth::Fixed;
use walksynth::NormalGenerator;

fn gfx(v: f64) -> Fixed {
    Fixed::from_raw((v * (SCALE as f64)).round() as i64)
}

#[test]
fn set_then_last_returns_value() {
    let mut g = NormalGenerator::new(gfx(0.0), gfx(1.0), gfx(1.0)).unwrap();
    g.set(gfx(5.0), gfx(3.0));
    assert_eq!(g.last(), Some(gfx(3.0)));
}

#[test]
fn last_is_empty_before_any_anchor() {
    let g = NormalGenerator::new(gfx(0.0), gfx(1.0), gfx(1.0)).unwrap();
    assert_eq!(g.last(), None);
}

#[test]
fn new_rejects_nonpositive_variance() {
    assert!(NormalGenerator::new(gfx(0.0), gfx(0.0), gfx(1.0)).is_none());
    assert!(NormalGenerator::new(gfx(0.0), gfx(-2.0), gfx(1.0)).is_none());
    assert!(NormalGenerator::new(gfx(0.0), gfx(2.0), gfx(1.0)).is_some());
}

#[test]
fn pin_at_target_time_is_exact() {
    let mut g = NormalGenerator::new(gfx(0.0), gfx(1.0), gfx(1.0)).unwrap();
    g.set(gfx(0.0), gfx(2.0));
    let r = g.next_interpolant(gfx(1.0), gfx(1.0), gfx(7.25), gfx(0.3));
    assert_eq!(r, Some(gfx(7.25)));
    assert_eq!(g.last(), Some(gfx(7.25)));
}

#[test]
fn first_draw_is_baseline_law() {
    let mut rng = rand_hc::Hc128Rng::seed_from_u64(42);
    let nd = rand_distr::Normal::new(0.0, 1.0).unwrap();
    let z: f64 = nd.sample(&mut rng);
    let zf = gfx(z);
    let mut g = NormalGenerator::new(gfx(0.0), gfx(1.0), gfx(0.5)).unwrap();
    assert_eq!(g.next(gfx(0.0), zf), Some(zf));
    assert_eq!(g.last(), Some(zf));
}

#[test]
fn anchored_fusion_has_exact_posterior_mean() {
    // Anchor 1 at time 0, baseline mean 0 with unit variance, unit rate:
    // at time 1 the precisions are 1 and 1, so the posterior mean is 1/2,
    // and a zero draw returns it exactly.
    let mut g = NormalGenerator::new(gfx(0.0), gfx(1.0), gfx(1.0)).unwrap();
    g.set(gfx(0.0), gfx(1.0));
    let r = g.next(gfx(1.0), gfx(0.0));
    assert_eq!(r, Some(Fixed::from_raw(SCALE / 2)));
}

#[test]
fn degenerate_elapsed_repeats_anchor() {
    let mut g = NormalGenerator::new(gfx(0.0), gfx(1.0), gfx(1.0)).unwrap();
    g.set(gfx(2.0), gfx(4.5));
    // Same time coordinate: the walk must not move, whatever the draw.
    assert_eq!(g.next(gfx(2.0), gfx(1.7)), Some(gfx(4.5)));
    assert_eq!(g.next_interpolant(gfx(2.0), gfx(9.0), gfx(8.0), gfx(1.7)), Some(gfx(4.5)));
}

#[test]
fn negative_time_is_rejected_and_state_kept() {
    let mut g = NormalGenerator::new(gfx(0.0), gfx(1.0), gfx(1.0)).unwrap();
    g.set(gfx(1.0), gfx(2.0));
    assert_eq!(g.next(gfx(-0.5), gfx(0.1)), None);
    assert_eq!(g.next_interpolant(gfx(-0.5), gfx(1.0), gfx(0.0), gfx(0.1)), None);
    assert_eq!(g.last(), Some(gfx(2.0)));
}

#[test]
fn time_past_target_is_rejected() {
    let mut g = NormalGenerator::new(gfx(0.0), gfx(1.0), gfx(1.0)).unwrap();
    assert_eq!(g.next_interpolant(gfx(3.0), gfx(2.0), gfx(1.0), gfx(0.1)), None);
    assert_eq!(g.last(), None);
}

#[test]
fn replay_with_same_seed_is_identical() {
    let nd = rand_distr::Normal::new(0.0, 1.0).unwrap();
    let mut rng1 = rand_hc::Hc128Rng::seed_from_u64(7);
    let mut rng2 = rand_hc::Hc128Rng::seed_from_u64(7);
    let mut g1 = NormalGenerator::new(gfx(0.25), gfx(2.0), gfx(1.0)).unwrap();
    let mut g2 = NormalGenerator::new(gfx(0.25), gfx(2.0), gfx(1.0)).unwrap();
    for i in 0..100u32 {
        let t = gfx(i as f64 * 0.5);
        let z1 = gfx(nd.sample(&mut rng1));
        let z2 = gfx(nd.sample(&mut rng2));
        assert_eq!(z1, z2);
        let r1 = if i % 10 == 3 {
            g1.next_interpolant(t, gfx(60.0), gfx(1.5), z1)
        } else {
            g1.next(t, z1)
        };
        let r2 = if i % 10 == 3 {
            g2.next_interpolant(t, gfx(60.0), gfx(1.5), z2)
        } else {
            g2.next(t, z2)
        };
        assert_eq!(r1, r2);
        assert!(r1.is_some());
    }
    assert_eq!(g1.last(), g2.last());
}

#[test]
fn draw_is_consumed_only_when_sampling() {
    let mut g = NormalGenerator::new(gfx(0.0), gfx(1.0), gfx(1.0)).unwrap();
    // Unanchored: a free request always draws.
    assert!(g.needs_draw(gfx(0.0)));
    assert!(!g.needs_draw(gfx(-1.0)));
    g.set(gfx(2.0), gfx(0.5));
    // Degenerate gap: no draw; positive gap: a draw.
    assert!(!g.needs_draw(gfx(2.0)));
    assert!(g.needs_draw(gfx(3.0)));
    // Bridging at the target time pins without drawing.
    assert!(!g.needs_draw_interpolant(gfx(3.0), gfx(3.0)));
    assert!(g.needs_draw_interpolant(gfx(3.0), gfx(4.0)));
}
