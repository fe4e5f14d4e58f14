//! Fixed-point exponential and natural logarithm.
//!
//! Both reduce their argument along powers of two — the exponential along
//! multiples of the logarithm of two, the logarithm by normalizing into the
//! band `[1, 2]` — evaluate a short series on the reduced argument, and put
//! the power-of-two count back. Each function's contract states the computed
//! raw value exactly, as the checked integer recurrences below.

use vstd::prelude::*;

use vstd::arithmetic::power2::{
    lemma2_to64, lemma2_to64_rest, lemma_pow2_adds, lemma_pow2_strictly_increases, pow2,
};

use crate::fixed::{
    fits, lemma_tdiv_tmod, oadd, odiv, odivk, omul, opt_val, osub, tdiv, tdiv_i64, Fixed, SCALE,
};

verus! {

/// Raw representation of the natural logarithm of two.
pub const LN2: i64 = 744_261_118;

/// Horner evaluation of the exponential series after `d` of 10 steps.
pub open spec fn exp_horner(y: int, d: nat) -> Option<int>
    decreases d,
{
    if d == 0 {
        Some(SCALE as int)
    } else {
        oadd(
            Some(SCALE as int),
            odivk(omul(Some(y), exp_horner(y, (d - 1) as nat)), 11 - d as int),
        )
    }
}

/// Shift of a raw value by a power of two: up multiplies and checks the
/// range, down divides truncating toward zero.
pub open spec fn oshift(a: Option<int>, n: int) -> Option<int> {
    match a {
        Some(x) => if n >= 0 {
            if fits(x * pow2(n as nat)) {
                Some(x * pow2(n as nat))
            } else {
                None
            }
        } else {
            Some(tdiv(x, pow2((-n) as nat) as int))
        },
        None => None,
    }
}

/// The fixed-point exponential: reduce along multiples of the logarithm of
/// two, evaluate the series on the remainder, and shift back. Far above the
/// representable range the result is `None`; far below it, zero.
pub open spec fn exp_spec(x: int) -> Option<int> {
    let n = tdiv(x, LN2 as int);
    if n >= 34 {
        None
    } else if n <= -34 {
        Some(0)
    } else {
        oshift(exp_horner(x - n * LN2 as int, 10), n)
    }
}

/// Checked exponential of the contents.
pub open spec fn oexp(a: Option<int>) -> Option<int> {
    match a {
        Some(x) => exp_spec(x),
        None => None,
    }
}

/// Halvings that bring a raw value down into the `[SCALE, 2 * SCALE]` band.
pub open spec fn norm_down_m(v: int) -> int
    decreases v,
{
    if v > 2 * SCALE as int {
        norm_down_m(tdiv(v, 2))
    } else {
        v
    }
}

/// The number of those halvings.
pub open spec fn norm_down_k(v: int) -> nat
    decreases v,
{
    if v > 2 * SCALE as int {
        1 + norm_down_k(tdiv(v, 2))
    } else {
        0
    }
}

/// Doublings that bring a positive raw value up to at least `SCALE`.
pub open spec fn norm_up_m(v: int) -> int
    decreases 2 * SCALE as int - v,
{
    if 1 <= v < SCALE as int {
        norm_up_m(2 * v)
    } else {
        v
    }
}

/// The number of those doublings.
pub open spec fn norm_up_k(v: int) -> nat
    decreases 2 * SCALE as int - v,
{
    if 1 <= v < SCALE as int {
        1 + norm_up_k(2 * v)
    } else {
        0
    }
}

/// Odd powers of the series argument: `t^(2j + 1)`.
pub open spec fn t_pow_odd(t: int, j: nat) -> Option<int>
    decreases j,
{
    if j == 0 {
        Some(t)
    } else {
        omul(omul(t_pow_odd(t, (j - 1) as nat), Some(t)), Some(t))
    }
}

/// Partial sums of the inverse hyperbolic tangent series after `j` terms.
pub open spec fn ln_series(t: int, j: nat) -> Option<int>
    decreases j,
{
    if j == 0 {
        Some(0)
    } else {
        oadd(
            ln_series(t, (j - 1) as nat),
            odivk(t_pow_odd(t, (j - 1) as nat), 2 * j as int - 1),
        )
    }
}

/// The fixed-point natural logarithm of a positive value: normalize into
/// the unit band, evaluate the series on `(m - 1) / (m + 1)`, double it,
/// and add back the power-of-two count times the logarithm of two.
pub open spec fn ln_spec(x: int) -> Option<int> {
    let m = norm_up_m(norm_down_m(x));
    let k = norm_down_k(x) as int - norm_up_k(norm_down_m(x)) as int;
    let t = odiv(osub(Some(m), Some(SCALE as int)), oadd(Some(m), Some(SCALE as int)));
    let s = match t {
        Some(tv) => ln_series(tv, 7),
        None => None,
    };
    oadd(oadd(s, s), Some(k * LN2 as int))
}

/// Checked logarithm of the contents; non-positive values yield `None`.
pub open spec fn oln(a: Option<int>) -> Option<int> {
    match a {
        Some(x) => if x <= 0 {
            None
        } else {
            ln_spec(x)
        },
        None => None,
    }
}

/// Power of two as a raw factor, for exponents up to 33.
fn pow2_i64(m: u64) -> (r: i64)
    requires
        m <= 33,
    ensures
        r == pow2(m as nat),
        1 <= r <= 0x200000000,
{
    proof {
        lemma2_to64();
        lemma2_to64_rest();
    }
    let mut p: i64 = 1;
    let mut i: u64 = 0;
    while i < m
        invariant
            i <= m,
            m <= 33,
            p == pow2(i as nat),
            pow2(33) == 0x200000000,
        decreases m - i,
    {
        proof {
            if (i as nat) < 33 {
                lemma_pow2_strictly_increases(i as nat, 33);
            }
            lemma_pow2_adds(i as nat, 1);
            lemma2_to64();
        }
        p = p * 2;
        i = i + 1;
    }
    proof {
        if (m as nat) < 33 {
            lemma_pow2_strictly_increases(m as nat, 33);
        }
    }
    p
}

/// The fixed-point exponential; `None` exactly when the checked recurrence
/// leaves the representable range.
pub fn exp_fx(x: &Fixed) -> (r: Option<Fixed>)
    ensures
        opt_val(r) == exp_spec(x@),
{
    let n: i64 = tdiv_i64(x.raw(), LN2);
    if n >= 34 {
        return None;
    }
    if n <= -34 {
        return Some(Fixed::from_raw(0));
    }
    proof {
        lemma_tdiv_tmod(x@, LN2 as int);
    }
    let rr: i64 = x.raw() - n * LN2;
    let y = Fixed::from_raw(rr);
    let one = Fixed::one();
    let mut acc: Option<Fixed> = Some(one);
    let mut d: u64 = 0;
    while d < 10
        invariant
            d <= 10,
            one@ == SCALE as int,
            opt_val(acc) == exp_horner(y@, d as nat),
        decreases 10 - d,
    {
        let dn: u64 = d + 1;
        let k: i64 = 11 - (dn as i64);
        let next_acc: Option<Fixed> = match acc {
            None => None,
            Some(ac) => match y.mul(&ac) {
                None => None,
                Some(p) => {
                    let q = p.div_int(k);
                    one.add(&q)
                },
            },
        };
        proof {
            assert(exp_horner(y@, dn as nat) == oadd(
                Some(SCALE as int),
                odivk(omul(Some(y@), exp_horner(y@, d as nat)), 11 - dn as int),
            ));
        }
        acc = next_acc;
        d = dn;
    }
    match acc {
        None => None,
        Some(t) => {
            if n >= 0 {
                let p = pow2_i64(n as u64);
                proof {
                    assert(-0x80000000000000000000000000 <= t.raw as int * p as int
                        <= 0x80000000000000000000000000) by (nonlinear_arith)
                        requires
                            i64::MIN as int <= t.raw as int <= i64::MAX as int,
                            1 <= p as int <= 0x200000000,
                    ;
                }
                let prod: i128 = (t.raw() as i128) * (p as i128);
                if prod > i64::MAX as i128 || prod < i64::MIN as i128 {
                    None
                } else {
                    Some(Fixed::from_raw(prod as i64))
                }
            } else {
                let p = pow2_i64((-n) as u64);
                Some(t.div_int(p))
            }
        },
    }
}

/// The fixed-point natural logarithm; `None` on non-positive values and
/// when the checked recurrence leaves the representable range.
pub fn ln_fx(x: &Fixed) -> (r: Option<Fixed>)
    ensures
        opt_val(r) == oln(Some(x@)),
{
    if x.raw() <= 0 {
        return None;
    }
    proof {
        lemma2_to64();
        lemma2_to64_rest();
    }
    let mut m: i64 = x.raw();
    let mut kd: u64 = 0;
    while m > 2 * SCALE
        invariant
            1 <= m,
            norm_down_m(m as int) == norm_down_m(x@),
            norm_down_k(x@) == kd + norm_down_k(m as int),
            m as int * pow2(kd as nat) <= x@,
            x@ >= 1,
            kd <= 62,
            pow2(63) == 0x8000000000000000,
        decreases m,
    {
        let mh: i64 = ((m as u64) / 2) as i64;
        proof {
            lemma_pow2_adds(kd as nat, 1);
            lemma2_to64();
            assert(mh as int * (pow2(kd as nat) * 2) <= m as int * pow2(kd as nat))
                by (nonlinear_arith)
                requires
                    2 * mh as int <= m as int,
                    pow2(kd as nat) >= 0,
            ;
            assert(pow2(kd as nat + 1) <= mh as int * pow2(kd as nat + 1)) by (nonlinear_arith)
                requires
                    mh as int >= 1,
                    pow2(kd as nat + 1) >= 0,
            ;
            if kd + 1 >= 63 {
                if kd + 1 > 63 {
                    lemma_pow2_strictly_increases(63, (kd + 1) as nat);
                }
                assert(false);
            }
        }
        m = mh;
        kd = kd + 1;
    }
    let mut ku: u64 = 0;
    while m < SCALE
        invariant
            1 <= m,
            m <= 2 * SCALE,
            norm_up_m(m as int) == norm_up_m(norm_down_m(x@)),
            norm_up_k(norm_down_m(x@)) == ku + norm_up_k(m as int),
            pow2(ku as nat) <= m as int,
            ku <= 62,
            kd <= 62,
            kd == norm_down_k(x@),
            pow2(32) == 0x100000000,
        decreases 2 * SCALE - m,
    {
        proof {
            lemma_pow2_adds(ku as nat, 1);
            lemma2_to64();
            if ku + 1 >= 32 {
                if ku + 1 > 32 {
                    lemma_pow2_strictly_increases(32, (ku + 1) as nat);
                }
                assert(false);
            }
        }
        m = m * 2;
        ku = ku + 1;
    }
    let mf = Fixed::from_raw(m);
    let one = Fixed::one();
    let tnum = match mf.sub(&one) {
        Some(v) => v,
        None => { return None; },
    };
    let tden = match mf.add(&one) {
        Some(v) => v,
        None => { return None; },
    };
    let t = match tnum.div(&tden) {
        Some(v) => v,
        None => { return None; },
    };
    let zero = Fixed::zero();
    let mut pw: Option<Fixed> = Some(t);
    let mut sum: Option<Fixed> = Some(zero);
    let mut j: u64 = 0;
    while j < 7
        invariant
            j <= 7,
            opt_val(pw) == t_pow_odd(t@, j as nat),
            opt_val(sum) == ln_series(t@, j as nat),
        decreases 7 - j,
    {
        let k: i64 = 2 * (j as i64) + 1;
        sum = match sum {
            None => None,
            Some(sv) => match pw {
                None => None,
                Some(pv) => {
                    let term = pv.div_int(k);
                    sv.add(&term)
                },
            },
        };
        pw = match pw {
            None => None,
            Some(pv) => match pv.mul(&t) {
                None => None,
                Some(p1) => p1.mul(&t),
            },
        };
        j = j + 1;
    }
    let s = match sum {
        Some(v) => v,
        None => { return None; },
    };
    let s2 = match s.add(&s) {
        Some(v) => v,
        None => { return None; },
    };
    let kn: i64 = (kd as i64) - (ku as i64);
    let kprod: i64 = kn * LN2;
    s2.add(&Fixed::from_raw(kprod))
}

} // verus!
