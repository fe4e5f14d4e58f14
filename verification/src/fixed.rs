//! Exact fixed-point arithmetic for the sample-path engine.
//!
//! A `Fixed` holds a real quantity as `raw / SCALE` with `SCALE = 2^30`.
//! Every operation states its result exactly, as integer arithmetic over the
//! raw representation; operations whose exact result can leave the `i64`
//! range return `None` instead of wrapping or panicking.

use vstd::prelude::*;

verus! {

/// Number of raw units per whole unit: 2^30.
pub const SCALE: i64 = 1_073_741_824;

/// Whether a mathematical integer fits the raw `i64` representation.
pub open spec fn fits(x: int) -> bool {
    i64::MIN <= x <= i64::MAX
}

/// Division truncated toward zero; meaningful for a positive divisor.
pub open spec fn tdiv(a: int, b: int) -> int {
    if a >= 0 {
        a / b
    } else {
        -((-a) / b)
    }
}

/// Remainder with the sign of the dividend; meaningful for a positive divisor.
pub open spec fn tmod(a: int, b: int) -> int {
    if a >= 0 {
        a % b
    } else {
        -((-a) % b)
    }
}

/// Checked raw addition.
pub open spec fn oadd(a: Option<int>, b: Option<int>) -> Option<int> {
    match (a, b) {
        (Some(x), Some(y)) => if fits(x + y) {
            Some(x + y)
        } else {
            None
        },
        _ => None,
    }
}

/// Checked raw subtraction.
pub open spec fn osub(a: Option<int>, b: Option<int>) -> Option<int> {
    match (a, b) {
        (Some(x), Some(y)) => if fits(x - y) {
            Some(x - y)
        } else {
            None
        },
        _ => None,
    }
}

/// Checked raw negation.
pub open spec fn oneg(a: Option<int>) -> Option<int> {
    match a {
        Some(x) => if fits(-x) {
            Some(-x)
        } else {
            None
        },
        None => None,
    }
}

/// Checked raw absolute value.
pub open spec fn oabs(a: Option<int>) -> Option<int> {
    match a {
        Some(x) => if x >= 0 {
            Some(x)
        } else if fits(-x) {
            Some(-x)
        } else {
            None
        },
        None => None,
    }
}

/// Checked fixed-point multiplication: `x * y / SCALE`, truncated toward zero.
pub open spec fn omul(a: Option<int>, b: Option<int>) -> Option<int> {
    match (a, b) {
        (Some(x), Some(y)) => if fits(tdiv(x * y, SCALE as int)) {
            Some(tdiv(x * y, SCALE as int))
        } else {
            None
        },
        _ => None,
    }
}

/// Checked fixed-point division: `x * SCALE / y`, truncated toward zero.
/// A divisor that is not strictly positive yields `None`.
pub open spec fn odiv(a: Option<int>, b: Option<int>) -> Option<int> {
    match (a, b) {
        (Some(x), Some(y)) => if y <= 0 {
            None
        } else if fits(tdiv(x * SCALE, y)) {
            Some(tdiv(x * SCALE, y))
        } else {
            None
        },
        _ => None,
    }
}

/// Division of a raw value by a plain positive integer, truncated toward
/// zero. The magnitude can only shrink, so this is total.
pub open spec fn odivk(a: Option<int>, k: int) -> Option<int> {
    match a {
        Some(x) => Some(tdiv(x, k)),
        None => None,
    }
}

/// `r` is the integer square root of `x`.
pub open spec fn is_sqrt(x: int, r: int) -> bool {
    0 <= r && r * r <= x && x < (r + 1) * (r + 1)
}

/// The integer square root of a non-negative `x`.
pub open spec fn sqrt_of(x: int) -> int {
    choose|r: int| is_sqrt(x, r)
}

/// Checked fixed-point square root of a raw value: the raw result of the
/// square root of the represented quantity. Negative inputs yield `None`.
pub open spec fn osqrt(a: Option<int>) -> Option<int> {
    match a {
        Some(x) => if x >= 0 {
            Some(sqrt_of(x * SCALE))
        } else {
            None
        },
        None => None,
    }
}

/// The raw contents of a checked fixed-point result.
pub open spec fn opt_val(r: Option<Fixed>) -> Option<int> {
    match r {
        Some(f) => Some(f.raw as int),
        None => None,
    }
}

proof fn lemma_sqrt_unique(x: int, r1: int, r2: int)
    requires
        is_sqrt(x, r1),
        is_sqrt(x, r2),
    ensures
        r1 == r2,
{
    assert(!(r1 < r2)) by (nonlinear_arith)
        requires
            is_sqrt(x, r1),
            is_sqrt(x, r2),
    ;
    assert(!(r2 < r1)) by (nonlinear_arith)
        requires
            is_sqrt(x, r1),
            is_sqrt(x, r2),
    ;
}

/// From a witness, the chosen square root is that witness.
pub proof fn lemma_sqrt_is(x: int, r: int)
    requires
        is_sqrt(x, r),
    ensures
        sqrt_of(x) == r,
{
    assert(exists|s: int| is_sqrt(x, s)) by {
        assert(is_sqrt(x, r));
    }
    assert(is_sqrt(x, sqrt_of(x)));
    lemma_sqrt_unique(x, sqrt_of(x), r);
}

/// Truncated division of a non-negative value by a positive one stays
/// between zero and the dividend.
pub proof fn lemma_tdiv_nonneg(a: int, b: int)
    requires
        a >= 0,
        b > 0,
    ensures
        0 <= tdiv(a, b) <= a,
{
    assert(0 <= a / b <= a) by (nonlinear_arith)
        requires
            a >= 0,
            b > 0,
    ;
}

/// Scaling by a positive factor and dividing it away is the identity.
pub proof fn lemma_tdiv_cancel(a: int, b: int)
    requires
        b > 0,
    ensures
        tdiv(a * b, b) == a,
{
    if a >= 0 {
        vstd::arithmetic::div_mod::lemma_div_multiples_vanish(a, b);
        assert(a * b == b * a) by (nonlinear_arith);
    } else {
        vstd::arithmetic::div_mod::lemma_div_multiples_vanish(-a, b);
        assert((-a) * b == b * (-a)) by (nonlinear_arith);
        assert(-(a * b) == (-a) * b) by (nonlinear_arith);
        assert(a * b < 0) by (nonlinear_arith)
            requires
                a < 0,
                b > 0,
        ;
    }
}

/// The truncated quotient and remainder recompose the dividend, and the
/// remainder is smaller than the divisor and carries the dividend's sign.
pub proof fn lemma_tdiv_tmod(a: int, b: int)
    requires
        b > 0,
    ensures
        a == tdiv(a, b) * b + tmod(a, b),
        a >= 0 ==> 0 <= tmod(a, b) < b,
        a < 0 ==> -b < tmod(a, b) <= 0,
{
    if a >= 0 {
        vstd::arithmetic::div_mod::lemma_fundamental_div_mod(a, b);
        assert(b * (a / b) == (a / b) * b) by (nonlinear_arith);
    } else {
        vstd::arithmetic::div_mod::lemma_fundamental_div_mod(-a, b);
        assert(b * ((-a) / b) == ((-a) / b) * b) by (nonlinear_arith);
        assert((-((-a) / b)) * b == -(((-a) / b) * b)) by (nonlinear_arith);
    }
}

/// Truncated division toward zero on plain raw values.
pub fn tdiv_i64(a: i64, b: i64) -> (q: i64)
    requires
        b > 0,
    ensures
        q == tdiv(a as int, b as int),
{
    let w: i128 = div_trunc_i128(a as i128, b as i128);
    proof {
        assert(i64::MIN as int <= tdiv(a as int, b as int) <= i64::MAX as int)
            by (nonlinear_arith)
            requires
                b as int >= 1,
                i64::MIN as int <= a as int <= i64::MAX as int,
        ;
    }
    w as i64
}

/// Truncated division toward zero on wide integers.
fn div_trunc_i128(a: i128, b: i128) -> (q: i128)
    requires
        b > 0,
        a > i128::MIN,
    ensures
        q == tdiv(a as int, b as int),
{
    if a >= 0 {
        let qu: u128 = (a as u128) / (b as u128);
        proof {
            assert(qu <= a as u128) by (nonlinear_arith)
                requires
                    qu == (a as u128) / (b as u128),
                    b as u128 >= 1,
            ;
        }
        qu as i128
    } else {
        let m: i128 = -a;
        let qu: u128 = (m as u128) / (b as u128);
        proof {
            assert(qu <= m as u128) by (nonlinear_arith)
                requires
                    qu == (m as u128) / (b as u128),
                    b as u128 >= 1,
            ;
        }
        -(qu as i128)
    }
}

/// A real quantity held as `raw / SCALE`.
#[derive(Clone, Copy, PartialEq, Eq, Structural, Debug)]
pub struct Fixed {
    pub raw: i64,
}

impl View for Fixed {
    type V = int;

    open spec fn view(&self) -> int {
        self.raw as int
    }
}

impl Fixed {
    /// The value whose raw representation is `raw`.
    pub fn from_raw(raw: i64) -> (r: Fixed)
        ensures
            r@ == raw,
    {
        Fixed { raw }
    }

    /// The raw representation.
    pub fn raw(&self) -> (r: i64)
        ensures
            r == self@,
    {
        self.raw
    }

    /// Zero.
    pub fn zero() -> (r: Fixed)
        ensures
            r@ == 0,
    {
        Fixed { raw: 0 }
    }

    /// One, that is `SCALE` raw units.
    pub fn one() -> (r: Fixed)
        ensures
            r@ == SCALE as int,
    {
        Fixed { raw: SCALE }
    }

    /// The fixed-point image of a plain integer, when it fits.
    pub fn from_int(v: i64) -> (r: Option<Fixed>)
        ensures
            fits(v as int * SCALE as int) ==> (r matches Some(f) && f@ == v as int
                * SCALE as int),
            !fits(v as int * SCALE as int) ==> r is None,
    {
        proof {
            assert(i64::MIN as int * SCALE as int <= v as int * SCALE as int <= i64::MAX as int
                * SCALE as int) by (nonlinear_arith)
                requires
                    i64::MIN as int <= v as int <= i64::MAX as int,
                    SCALE as int > 0,
            ;
        }
        let w: i128 = (v as i128) * (SCALE as i128);
        if w > i64::MAX as i128 || w < i64::MIN as i128 {
            None
        } else {
            Some(Fixed { raw: w as i64 })
        }
    }

    /// Checked addition.
    pub fn add(&self, o: &Fixed) -> (r: Option<Fixed>)
        ensures
            opt_val(r) == oadd(Some(self@), Some(o@)),
    {
        let s: i128 = self.raw as i128 + o.raw as i128;
        if s > i64::MAX as i128 || s < i64::MIN as i128 {
            None
        } else {
            Some(Fixed { raw: s as i64 })
        }
    }

    /// Checked subtraction.
    pub fn sub(&self, o: &Fixed) -> (r: Option<Fixed>)
        ensures
            opt_val(r) == osub(Some(self@), Some(o@)),
    {
        let s: i128 = self.raw as i128 - o.raw as i128;
        if s > i64::MAX as i128 || s < i64::MIN as i128 {
            None
        } else {
            Some(Fixed { raw: s as i64 })
        }
    }

    /// Checked negation.
    pub fn neg(&self) -> (r: Option<Fixed>)
        ensures
            opt_val(r) == oneg(Some(self@)),
    {
        if self.raw == i64::MIN {
            None
        } else {
            Some(Fixed { raw: -self.raw })
        }
    }

    /// Checked absolute value.
    pub fn abs(&self) -> (r: Option<Fixed>)
        ensures
            opt_val(r) == oabs(Some(self@)),
    {
        if self.raw >= 0 {
            Some(*self)
        } else if self.raw == i64::MIN {
            None
        } else {
            Some(Fixed { raw: -self.raw })
        }
    }

    /// Checked fixed-point multiplication, truncated toward zero.
    pub fn mul(&self, o: &Fixed) -> (r: Option<Fixed>)
        ensures
            opt_val(r) == omul(Some(self@), Some(o@)),
    {
        proof {
            assert(i64::MIN as int * i64::MAX as int <= self.raw as int * o.raw as int
                <= i64::MIN as int * i64::MIN as int) by (nonlinear_arith)
                requires
                    i64::MIN as int <= self.raw as int <= i64::MAX as int,
                    i64::MIN as int <= o.raw as int <= i64::MAX as int,
            ;
        }
        let p: i128 = (self.raw as i128) * (o.raw as i128);
        let q: i128 = div_trunc_i128(p, SCALE as i128);
        if q > i64::MAX as i128 || q < i64::MIN as i128 {
            None
        } else {
            Some(Fixed { raw: q as i64 })
        }
    }

    /// Checked fixed-point division, truncated toward zero; `None` for a
    /// divisor that is not strictly positive.
    pub fn div(&self, o: &Fixed) -> (r: Option<Fixed>)
        ensures
            opt_val(r) == odiv(Some(self@), Some(o@)),
    {
        if o.raw <= 0 {
            return None;
        }
        proof {
            assert(i64::MIN as int * SCALE as int <= self.raw as int * SCALE as int
                <= i64::MAX as int * SCALE as int) by (nonlinear_arith)
                requires
                    i64::MIN as int <= self.raw as int <= i64::MAX as int,
                    SCALE as int > 0,
            ;
        }
        let p: i128 = (self.raw as i128) * (SCALE as i128);
        let q: i128 = div_trunc_i128(p, o.raw as i128);
        if q > i64::MAX as i128 || q < i64::MIN as i128 {
            None
        } else {
            Some(Fixed { raw: q as i64 })
        }
    }

    /// Division of the raw value by a plain positive integer.
    pub fn div_int(&self, k: i64) -> (r: Fixed)
        requires
            k >= 1,
        ensures
            r@ == tdiv(self@, k as int),
    {
        let q: i128 = div_trunc_i128(self.raw as i128, k as i128);
        proof {
            assert(i64::MIN as int <= tdiv(self.raw as int, k as int) <= i64::MAX as int)
                by (nonlinear_arith)
                requires
                    k as int >= 1,
                    i64::MIN as int <= self.raw as int <= i64::MAX as int,
            ;
        }
        Fixed { raw: q as i64 }
    }

    /// Fixed-point square root of a non-negative value.
    pub fn sqrt(&self) -> (r: Fixed)
        requires
            self@ >= 0,
        ensures
            r@ == sqrt_of(self@ * SCALE as int),
            r@ >= 0,
    {
        proof {
            assert(0 <= self.raw as int * SCALE as int <= i64::MAX as int * SCALE as int)
                by (nonlinear_arith)
                requires
                    0 <= self.raw as int <= i64::MAX as int,
                    SCALE as int > 0,
            ;
        }
        let x: u128 = (self.raw as u128) * (SCALE as u128);
        proof {
            assert(x as int == self.raw as int * SCALE as int);
            assert((i64::MAX as int * SCALE as int) < (0x400000000000000000000000 as int));
        }
        let s: u128 = isqrt_u128(x);
        proof {
            assert(s as int * s as int <= x as int);
            assert((s as int) < (0x800000000000 as int)) by (nonlinear_arith)
                requires
                    is_sqrt(x as int, s as int),
                    (x as int) < (0x400000000000000000000000 as int),
            ;
            lemma_sqrt_is(self@ * SCALE as int, s as int);
        }
        Fixed { raw: s as i64 }
    }
}

/// Integer square root by bisection.
fn isqrt_u128(x: u128) -> (r: u128)
    requires
        x < 0x400000000000000000000000u128,
    ensures
        is_sqrt(x as int, r as int),
{
    let mut lo: u128 = 0;
    let mut hi: u128 = 0x800000000000u128;
    proof {
        assert((0x800000000000 as int) * (0x800000000000 as int) == (0x400000000000000000000000 as int))
            by (nonlinear_arith);
    }
    while hi - lo > 1
        invariant
            lo < hi,
            hi <= 0x800000000000u128,
            lo as int * lo as int <= x as int,
            (x as int) < hi as int * hi as int,
        decreases hi - lo,
    {
        let mid: u128 = lo + (hi - lo) / 2;
        proof {
            assert(mid as int * mid as int <= (0x800000000000 as int) * (0x800000000000 as int))
                by (nonlinear_arith)
                requires
                    0 <= mid as int <= (0x800000000000 as int),
            ;
            assert((0x800000000000 as int) * (0x800000000000 as int) == (0x400000000000000000000000 as int))
                by (nonlinear_arith);
        }
        let sq: u128 = mid * mid;
        if sq <= x {
            lo = mid;
        } else {
            hi = mid;
        }
    }
    lo
}

} // verus!
