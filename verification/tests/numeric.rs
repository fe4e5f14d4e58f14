use walksynth::fixed::SCALE;
use walksynth::transcend::{exp_fx, ln_fx};
use walksynth::Fixed;

fn nfx(v: f64) -> Fixed {
    Fixed::from_raw((v * (SCALE as f64)).round() as i64)
}

fn nf64(f: Fixed) -> f64 {
    f.raw() as f64 / (SCALE as f64)
}

#[test]
fn from_int_scales_exactly() {
    assert_eq!(Fixed::from_int(3).unwrap().raw(), 3 * SCALE);
    assert_eq!(Fixed::from_int(-2).unwrap().raw(), -2 * SCALE);
    assert!(Fixed::from_int(i64::MAX).is_none());
}

#[test]
fn arithmetic_is_exact_on_representable_values() {
    assert_eq!(nfx(1.5).add(&nfx(2.25)), Some(nfx(3.75)));
    assert_eq!(nfx(1.5).sub(&nfx(2.0)), Some(nfx(-0.5)));
    assert_eq!(nfx(1.5).mul(&nfx(2.0)), Some(nfx(3.0)));
    assert_eq!(nfx(1.0).div(&nfx(2.0)), Some(nfx(0.5)));
    assert_eq!(nfx(-1.5).abs(), Some(nfx(1.5)));
    assert_eq!(nfx(1.5).neg(), Some(nfx(-1.5)));
}

#[test]
fn addition_overflow_is_reported() {
    let top = Fixed::from_raw(i64::MAX);
    assert_eq!(top.add(&nfx(1.0)), None);
    assert_eq!(Fixed::from_raw(i64::MIN).sub(&nfx(1.0)), None);
}

#[test]
fn division_by_nonpositive_is_reported() {
    assert_eq!(nfx(1.0).div(&nfx(0.0)), None);
    assert_eq!(nfx(1.0).div(&nfx(-2.0)), None);
}

#[test]
fn square_root_is_exact_on_squares() {
    assert_eq!(Fixed::from_int(4).unwrap().sqrt(), Fixed::from_int(2).unwrap());
    assert_eq!(Fixed::from_int(9).unwrap().sqrt(), Fixed::from_int(3).unwrap());
    assert_eq!(nfx(0.25).sqrt(), nfx(0.5));
    assert_eq!(nfx(0.0).sqrt(), nfx(0.0));
}

#[test]
fn exponential_of_zero_is_one() {
    assert_eq!(exp_fx(&nfx(0.0)), Some(Fixed::from_raw(SCALE)));
}

#[test]
fn logarithm_of_one_is_zero() {
    assert_eq!(ln_fx(&Fixed::from_raw(SCALE)), Some(Fixed::from_raw(0)));
}

#[test]
fn exponential_matches_the_real_function() {
    let e1 = exp_fx(&nfx(1.0)).unwrap();
    assert!((nf64(e1) - 2.718281828).abs() < 1e-4);
    let em = exp_fx(&nfx(-0.75)).unwrap();
    assert!((nf64(em) - 0.472366553).abs() < 1e-4);
}

#[test]
fn logarithm_matches_the_real_function() {
    let l2 = ln_fx(&nfx(2.0)).unwrap();
    assert!((nf64(l2) - 0.693147181).abs() < 1e-4);
    let l10 = ln_fx(&nfx(10.0)).unwrap();
    assert!((nf64(l10) - 2.302585093).abs() < 1e-4);
    let lh = ln_fx(&nfx(0.035)).unwrap();
    assert!((nf64(lh) + 3.352407217).abs() < 1e-4);
}

#[test]
fn exponential_after_logarithm_is_close() {
    let r = exp_fx(&ln_fx(&nfx(3.0)).unwrap()).unwrap();
    assert!((nf64(r) - 3.0).abs() < 1e-3);
}

#[test]
fn logarithm_of_nonpositive_is_reported() {
    assert_eq!(ln_fx(&nfx(0.0)), None);
    assert_eq!(ln_fx(&nfx(-1.0)), None);
}

#[test]
fn exponential_overflow_is_reported() {
    assert_eq!(exp_fx(&nfx(30.0)), None);
    // Far below the representable resolution the result collapses to zero.
    assert_eq!(exp_fx(&nfx(-30.0)), Some(Fixed::from_raw(0)));
}
