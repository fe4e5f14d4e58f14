//! The mean-reverting Gaussian walk generator.
//!
//! The generator keeps an optional anchor, the most recently recorded
//! `(time, value)` pair, and fuses Gaussian evidence sources by
//! precision-weighted averaging: the previous sample (precision the
//! reciprocal of the scaled elapsed time), the baseline prior (precision the
//! reciprocal of the baseline variance), and, when bridging, the pinned
//! target (precision the reciprocal of the scaled remaining time). The
//! standard-normal draw that turns the fused posterior into a sample is
//! injected by the caller as a plain value, so every transition is an exact
//! function of the prior state and the call's arguments.

use vstd::prelude::*;

use crate::fixed::{
    fits, is_sqrt, lemma_sqrt_is, lemma_tdiv_cancel, lemma_tdiv_nonneg, oabs, oadd, odiv, omul,
    opt_val, osqrt, osub, tdiv, Fixed, SCALE,
};

verus! {

/// The most recently recorded point of the walk.
#[derive(Clone, Copy, PartialEq, Eq, Structural, Debug)]
pub struct AnchorPoint {
    pub time: Fixed,
    pub value: Fixed,
}

/// A mean-reverting Gaussian walk, free-running or pinned to a future value.
#[derive(Clone, Copy, Debug)]
pub struct NormalGenerator {
    /// The anchor that future samples condition on, once one exists.
    pub anchor: Option<AnchorPoint>,
    /// Mean of the stationary baseline law.
    pub baseline_mean: Fixed,
    /// Variance of the stationary baseline law; strictly positive.
    pub baseline_variance: Fixed,
    /// Rate converting an elapsed-time gap into an evidence precision.
    pub sigma_xx: Fixed,
}

/// The evidence precision proxy of the gap between the anchor time and the
/// requested time: `|t - last_time| * sigma`.
pub open spec fn spec_elapsed(last_time: int, t: int, sigma: int) -> Option<int> {
    omul(oabs(osub(Some(t), Some(last_time))), Some(sigma))
}

/// The horizon left to a pin: `(tt - t) * sigma`, signed.
pub open spec fn spec_remaining(t: int, tt: int, sigma: int) -> Option<int> {
    omul(osub(Some(tt), Some(t)), Some(sigma))
}

/// The horizon used when no anchor exists: `|tt - t| * sigma`.
pub open spec fn spec_remaining_abs(t: int, tt: int, sigma: int) -> Option<int> {
    omul(oabs(osub(Some(tt), Some(t))), Some(sigma))
}

/// A draw from a fused posterior with the given precision-weighted numerator
/// and summed-precision denominator: `z * sqrt(1/den) + num/den`.
pub open spec fn spec_fused_sample(num: Option<int>, den: Option<int>, z: int) -> Option<int> {
    oadd(omul(Some(z), osqrt(odiv(Some(SCALE as int), den))), odiv(num, den))
}

/// The precision-weighted numerator of anchor evidence and baseline prior.
pub open spec fn spec_free_num(g: NormalGenerator, last: int, e: int) -> Option<int> {
    oadd(
        odiv(Some(last), Some(e)),
        odiv(Some(g.baseline_mean@), Some(g.baseline_variance@)),
    )
}

/// The summed precisions of anchor evidence and baseline prior.
pub open spec fn spec_free_den(g: NormalGenerator, e: int) -> Option<int> {
    oadd(
        odiv(Some(SCALE as int), Some(e)),
        odiv(Some(SCALE as int), Some(g.baseline_variance@)),
    )
}

/// The sample of a free (unpinned) request at time `t` with draw `z`.
pub open spec fn spec_free_sample(g: NormalGenerator, t: int, z: int) -> Option<int> {
    match g.anchor {
        Some(a) => match spec_elapsed(a.time@, t, g.sigma_xx@) {
            Some(e) => if e > 0 {
                spec_fused_sample(spec_free_num(g, a.value@, e), spec_free_den(g, e), z)
            } else {
                Some(a.value@)
            },
            None => None,
        },
        None => oadd(
            omul(Some(z), osqrt(Some(g.baseline_variance@))),
            Some(g.baseline_mean@),
        ),
    }
}

/// The draw when no anchor exists and a pin is active. The posterior mean
/// divides by the reciprocal of `bv + 1/rm` while the posterior variance
/// uses the summed reciprocals; the two denominators are deliberately
/// distinct expressions.
pub open spec fn spec_pinned_prior_sample(bm: int, bv: int, tv: int, rm: int, z: int) -> Option<
    int,
> {
    let num = oadd(odiv(Some(bm), Some(bv)), odiv(Some(tv), Some(rm)));
    let mean = odiv(
        num,
        odiv(Some(SCALE as int), oadd(Some(bv), odiv(Some(SCALE as int), Some(rm)))),
    );
    let variance = odiv(
        Some(SCALE as int),
        oadd(odiv(Some(SCALE as int), Some(bv)), odiv(Some(SCALE as int), Some(rm))),
    );
    oadd(omul(Some(z), osqrt(variance)), mean)
}

/// The sample of a bridged request at time `t` pinned to `tv` at `tt`.
pub open spec fn spec_bridge_sample(
    g: NormalGenerator,
    t: int,
    tt: int,
    tv: int,
    z: int,
) -> Option<int> {
    match g.anchor {
        Some(a) => match spec_elapsed(a.time@, t, g.sigma_xx@) {
            Some(e) => if e > 0 {
                match spec_remaining(t, tt, g.sigma_xx@) {
                    Some(rm) => if rm > 0 {
                        spec_fused_sample(
                            oadd(spec_free_num(g, a.value@, e), odiv(Some(tv), Some(rm))),
                            oadd(spec_free_den(g, e), odiv(Some(SCALE as int), Some(rm))),
                            z,
                        )
                    } else {
                        Some(tv)
                    },
                    None => None,
                }
            } else {
                Some(a.value@)
            },
            None => None,
        },
        None => match spec_remaining_abs(t, tt, g.sigma_xx@) {
            Some(rm) => if rm > 0 {
                spec_pinned_prior_sample(g.baseline_mean@, g.baseline_variance@, tv, rm, z)
            } else {
                Some(tv)
            },
            None => None,
        },
    }
}

/// The fixed-point carrier of an in-range raw value.
pub open spec fn fixed_of(v: int) -> Fixed {
    Fixed { raw: v as i64 }
}

/// The full transition of a free request: the state after the call and the
/// returned sample.
pub open spec fn spec_free_step(g: NormalGenerator, t: Fixed, z: Fixed) -> (
    NormalGenerator,
    Option<int>,
) {
    if t@ < 0 {
        (g, None)
    } else {
        match spec_free_sample(g, t@, z@) {
            Some(s) => (
                (NormalGenerator {
                    anchor: Some(AnchorPoint { time: t, value: fixed_of(s) }),
                    ..g
                }),
                Some(s),
            ),
            None => (g, None),
        }
    }
}

/// The full transition of a bridged request.
pub open spec fn spec_bridge_step(
    g: NormalGenerator,
    t: Fixed,
    tt: Fixed,
    tv: Fixed,
    z: Fixed,
) -> (NormalGenerator, Option<int>) {
    if t@ < 0 || t@ > tt@ {
        (g, None)
    } else {
        match spec_bridge_sample(g, t@, tt@, tv@, z@) {
            Some(s) => (
                (NormalGenerator {
                    anchor: Some(AnchorPoint { time: t, value: fixed_of(s) }),
                    ..g
                }),
                Some(s),
            ),
            None => (g, None),
        }
    }
}

/// One request of a replayed session.
pub enum WalkCall {
    Free { time: Fixed, draw: Fixed },
    Bridge { time: Fixed, target_time: Fixed, target_value: Fixed, draw: Fixed },
    Anchor { time: Fixed, value: Fixed },
}

/// The transition of one request.
pub open spec fn spec_step(g: NormalGenerator, c: WalkCall) -> (NormalGenerator, Option<int>) {
    match c {
        WalkCall::Free { time, draw } => spec_free_step(g, time, draw),
        WalkCall::Bridge { time, target_time, target_value, draw } => spec_bridge_step(
            g,
            time,
            target_time,
            target_value,
            draw,
        ),
        WalkCall::Anchor { time, value } => (
            (NormalGenerator { anchor: Some(AnchorPoint { time, value }), ..g }),
            Some(value@),
        ),
    }
}

/// The output trace of a whole session of requests.
pub open spec fn spec_run(g: NormalGenerator, calls: Seq<WalkCall>) -> Seq<Option<int>>
    decreases calls.len(),
{
    if calls.len() == 0 {
        Seq::empty()
    } else {
        let st = spec_step(g, calls[0]);
        seq![st.1] + spec_run(st.0, calls.drop_first())
    }
}

impl NormalGenerator {
    /// The internal invariant: the baseline variance is strictly positive.
    pub open spec fn wf(self) -> bool {
        self.baseline_variance@ > 0
    }

    /// A fresh, unanchored walk. Construction fails exactly on a
    /// non-positive baseline variance.
    pub fn new(mean: Fixed, variance: Fixed, sigma: Fixed) -> (r: Option<NormalGenerator>)
        ensures
            variance@ <= 0 ==> r is None,
            variance@ > 0 ==> r == Some(
                NormalGenerator {
                    anchor: None,
                    baseline_mean: mean,
                    baseline_variance: variance,
                    sigma_xx: sigma,
                },
            ),
            r matches Some(g) ==> g.wf() && g.anchor is None,
    {
        if variance.raw() <= 0 {
            return None;
        }
        Some(
            NormalGenerator {
                anchor: None,
                baseline_mean: mean,
                baseline_variance: variance,
                sigma_xx: sigma,
            },
        )
    }

    /// Unconditionally overwrite the anchor with a known point.
    pub fn set(&mut self, current_time: Fixed, current_value: Fixed)
        ensures
            *final(self) == (NormalGenerator {
                anchor: Some(AnchorPoint { time: current_time, value: current_value }),
                ..*old(self)
            }),
    {
        self.anchor = Some(AnchorPoint { time: current_time, value: current_value });
    }

    /// The current anchor value, or nothing when no anchor exists yet.
    pub fn last(&self) -> (r: Option<Fixed>)
        ensures
            r == (match self.anchor {
                Some(a) => Some(a.value),
                None => None::<Fixed>,
            }),
    {
        match self.anchor {
            Some(a) => Some(a.value),
            None => None,
        }
    }

    /// A free sample at `current_time`, driven by the standard-normal draw
    /// `z`. Fails on a negative time, or when the exact arithmetic leaves
    /// the representable range; a failed call leaves the state untouched.
    pub fn next(&mut self, current_time: Fixed, z: Fixed) -> (r: Option<Fixed>)
        requires
            old(self).wf(),
        ensures
            final(self).wf(),
            final(self).baseline_mean == old(self).baseline_mean,
            final(self).baseline_variance == old(self).baseline_variance,
            final(self).sigma_xx == old(self).sigma_xx,
            (*final(self), opt_val(r)) == spec_free_step(*old(self), current_time, z),
            current_time@ < 0 ==> r is None && *final(self) == *old(self),
            current_time@ >= 0 ==> opt_val(r) == spec_free_sample(*old(self), current_time@, z@),
            current_time@ >= 0 ==> (match r {
                Some(s) => final(self).anchor == Some(
                    AnchorPoint { time: current_time, value: s },
                ),
                None => *final(self) == *old(self),
            }),
    {
        if current_time.raw() < 0 {
            return None;
        }
        let sample: Fixed = match self.anchor {
            Some(a) => {
                let d = match current_time.sub(&a.time) {
                    Some(v) => v,
                    None => { return None; },
                };
                let ad = match d.abs() {
                    Some(v) => v,
                    None => { return None; },
                };
                let e = match ad.mul(&self.sigma_xx) {
                    Some(v) => v,
                    None => { return None; },
                };
                if e.raw() > 0 {
                    let num = match self.fused_num(&a.value, &e) {
                        Some(v) => v,
                        None => { return None; },
                    };
                    let den = match self.fused_den(&e) {
                        Some(v) => v,
                        None => { return None; },
                    };
                    match self.posterior_draw(&num, &den, &z) {
                        Some(v) => v,
                        None => { return None; },
                    }
                } else {
                    a.value
                }
            },
            None => {
                let sd = self.baseline_variance.sqrt();
                let scaled = match z.mul(&sd) {
                    Some(v) => v,
                    None => { return None; },
                };
                match scaled.add(&self.baseline_mean) {
                    Some(v) => v,
                    None => { return None; },
                }
            },
        };
        self.anchor = Some(AnchorPoint { time: current_time, value: sample });
        Some(sample)
    }

    /// A bridged sample at `current_time`, consistent with landing on
    /// `target_value` at `target_time`, driven by the draw `z`. Fails on a
    /// negative time, on a time past the target, or when the exact
    /// arithmetic leaves the representable range; a failed call leaves the
    /// state untouched.
    pub fn next_interpolant(
        &mut self,
        current_time: Fixed,
        target_time: Fixed,
        target_value: Fixed,
        z: Fixed,
    ) -> (r: Option<Fixed>)
        requires
            old(self).wf(),
        ensures
            final(self).wf(),
            final(self).baseline_mean == old(self).baseline_mean,
            final(self).baseline_variance == old(self).baseline_variance,
            final(self).sigma_xx == old(self).sigma_xx,
            (*final(self), opt_val(r)) == spec_bridge_step(
                *old(self),
                current_time,
                target_time,
                target_value,
                z,
            ),
            current_time@ < 0 || current_time@ > target_time@ ==> r is None && *final(self)
                == *old(self),
            current_time@ >= 0 && current_time@ <= target_time@ ==> opt_val(r)
                == spec_bridge_sample(
                *old(self),
                current_time@,
                target_time@,
                target_value@,
                z@,
            ),
            current_time@ >= 0 && current_time@ <= target_time@ ==> (match r {
                Some(s) => final(self).anchor == Some(
                    AnchorPoint { time: current_time, value: s },
                ),
                None => *final(self) == *old(self),
            }),
    {
        if current_time.raw() < 0 {
            return None;
        }
        if current_time.raw() > target_time.raw() {
            return None;
        }
        let sample: Fixed = match self.anchor {
            Some(a) => {
                let d = match current_time.sub(&a.time) {
                    Some(v) => v,
                    None => { return None; },
                };
                let ad = match d.abs() {
                    Some(v) => v,
                    None => { return None; },
                };
                let e = match ad.mul(&self.sigma_xx) {
                    Some(v) => v,
                    None => { return None; },
                };
                if e.raw() > 0 {
                    let rd = match target_time.sub(&current_time) {
                        Some(v) => v,
                        None => { return None; },
                    };
                    let rm = match rd.mul(&self.sigma_xx) {
                        Some(v) => v,
                        None => { return None; },
                    };
                    if rm.raw() > 0 {
                        let num2 = match self.fused_num(&a.value, &e) {
                            Some(v) => v,
                            None => { return None; },
                        };
                        let den2 = match self.fused_den(&e) {
                            Some(v) => v,
                            None => { return None; },
                        };
                        let tnum = match target_value.div(&rm) {
                            Some(v) => v,
                            None => { return None; },
                        };
                        let num = match num2.add(&tnum) {
                            Some(v) => v,
                            None => { return None; },
                        };
                        let one = Fixed::one();
                        let tden = match one.div(&rm) {
                            Some(v) => v,
                            None => { return None; },
                        };
                        let den = match den2.add(&tden) {
                            Some(v) => v,
                            None => { return None; },
                        };
                        match self.posterior_draw(&num, &den, &z) {
                            Some(v) => v,
                            None => { return None; },
                        }
                    } else {
                        target_value
                    }
                } else {
                    a.value
                }
            },
            None => {
                let rd = match target_time.sub(&current_time) {
                    Some(v) => v,
                    None => { return None; },
                };
                let rad = match rd.abs() {
                    Some(v) => v,
                    None => { return None; },
                };
                let rm = match rad.mul(&self.sigma_xx) {
                    Some(v) => v,
                    None => { return None; },
                };
                if rm.raw() > 0 {
                    match self.pinned_prior_draw(&rm, &target_value, &z) {
                        Some(v) => v,
                        None => { return None; },
                    }
                } else {
                    target_value
                }
            },
        };
        self.anchor = Some(AnchorPoint { time: current_time, value: sample });
        Some(sample)
    }

    /// Whether a free request at `current_time` would consume a draw: it
    /// does unless it fails outright or degenerates to the anchor value.
    pub fn needs_draw(&self, current_time: Fixed) -> (r: bool)
        ensures
            r == (current_time@ >= 0 && (match self.anchor {
                Some(a) => (match spec_elapsed(a.time@, current_time@, self.sigma_xx@) {
                    Some(e) => e > 0,
                    None => false,
                }),
                None => true,
            })),
    {
        if current_time.raw() < 0 {
            return false;
        }
        match self.anchor {
            Some(a) => {
                let d = match current_time.sub(&a.time) {
                    Some(v) => v,
                    None => { return false; },
                };
                let ad = match d.abs() {
                    Some(v) => v,
                    None => { return false; },
                };
                let e = match ad.mul(&self.sigma_xx) {
                    Some(v) => v,
                    None => { return false; },
                };
                e.raw() > 0
            },
            None => true,
        }
    }

    /// Whether a bridged request would consume a draw: it does unless it
    /// fails outright, degenerates to the anchor value, or pins exactly.
    pub fn needs_draw_interpolant(&self, current_time: Fixed, target_time: Fixed) -> (r: bool)
        ensures
            r == (current_time@ >= 0 && current_time@ <= target_time@ && (match self.anchor {
                Some(a) => (match spec_elapsed(a.time@, current_time@, self.sigma_xx@) {
                    Some(e) => e > 0 && (match spec_remaining(
                        current_time@,
                        target_time@,
                        self.sigma_xx@,
                    ) {
                        Some(rm) => rm > 0,
                        None => false,
                    }),
                    None => false,
                }),
                None => (match spec_remaining_abs(current_time@, target_time@, self.sigma_xx@) {
                    Some(rm) => rm > 0,
                    None => false,
                }),
            })),
    {
        if current_time.raw() < 0 {
            return false;
        }
        if current_time.raw() > target_time.raw() {
            return false;
        }
        match self.anchor {
            Some(a) => {
                let d = match current_time.sub(&a.time) {
                    Some(v) => v,
                    None => { return false; },
                };
                let ad = match d.abs() {
                    Some(v) => v,
                    None => { return false; },
                };
                let e = match ad.mul(&self.sigma_xx) {
                    Some(v) => v,
                    None => { return false; },
                };
                if e.raw() <= 0 {
                    return false;
                }
                let rd = match target_time.sub(&current_time) {
                    Some(v) => v,
                    None => { return false; },
                };
                let rm = match rd.mul(&self.sigma_xx) {
                    Some(v) => v,
                    None => { return false; },
                };
                rm.raw() > 0
            },
            None => {
                let rd = match target_time.sub(&current_time) {
                    Some(v) => v,
                    None => { return false; },
                };
                let rad = match rd.abs() {
                    Some(v) => v,
                    None => { return false; },
                };
                let rm = match rad.mul(&self.sigma_xx) {
                    Some(v) => v,
                    None => { return false; },
                };
                rm.raw() > 0
            },
        }
    }

    /// The precision-weighted numerator over anchor evidence and baseline.
    fn fused_num(&self, last: &Fixed, e: &Fixed) -> (r: Option<Fixed>)
        requires
            self.wf(),
        ensures
            opt_val(r) == spec_free_num(*self, last@, e@),
    {
        let t1 = match last.div(e) {
            Some(v) => v,
            None => { return None; },
        };
        let t2 = match self.baseline_mean.div(&self.baseline_variance) {
            Some(v) => v,
            None => { return None; },
        };
        t1.add(&t2)
    }

    /// The summed precisions over anchor evidence and baseline.
    fn fused_den(&self, e: &Fixed) -> (r: Option<Fixed>)
        requires
            self.wf(),
        ensures
            opt_val(r) == spec_free_den(*self, e@),
    {
        let one = Fixed::one();
        let r1 = match one.div(e) {
            Some(v) => v,
            None => { return None; },
        };
        let r2 = match one.div(&self.baseline_variance) {
            Some(v) => v,
            None => { return None; },
        };
        r1.add(&r2)
    }

    /// Draw from the fused posterior: `z * sqrt(1/den) + num/den`.
    fn posterior_draw(&self, num: &Fixed, den: &Fixed, z: &Fixed) -> (r: Option<Fixed>)
        ensures
            opt_val(r) == spec_fused_sample(Some(num@), Some(den@), z@),
    {
        let one = Fixed::one();
        let mean = match num.div(den) {
            Some(v) => v,
            None => { return None; },
        };
        let variance = match one.div(den) {
            Some(v) => v,
            None => { return None; },
        };
        proof {
            lemma_tdiv_nonneg(SCALE as int * SCALE as int, den@);
        }
        let sd = variance.sqrt();
        let scaled = match z.mul(&sd) {
            Some(v) => v,
            None => { return None; },
        };
        scaled.add(&mean)
    }

    /// Draw for a pinned request before any anchor exists, with the two
    /// literal denominator expressions.
    fn pinned_prior_draw(&self, rm: &Fixed, tv: &Fixed, z: &Fixed) -> (r: Option<Fixed>)
        requires
            self.wf(),
        ensures
            opt_val(r) == spec_pinned_prior_sample(
                self.baseline_mean@,
                self.baseline_variance@,
                tv@,
                rm@,
                z@,
            ),
    {
        let one = Fixed::one();
        let t1 = match self.baseline_mean.div(&self.baseline_variance) {
            Some(v) => v,
            None => { return None; },
        };
        let t2 = match tv.div(rm) {
            Some(v) => v,
            None => { return None; },
        };
        let num = match t1.add(&t2) {
            Some(v) => v,
            None => { return None; },
        };
        let ir = match one.div(rm) {
            Some(v) => v,
            None => { return None; },
        };
        let dq = match self.baseline_variance.add(&ir) {
            Some(v) => v,
            None => { return None; },
        };
        let dqr = match one.div(&dq) {
            Some(v) => v,
            None => { return None; },
        };
        let mean = match num.div(&dqr) {
            Some(v) => v,
            None => { return None; },
        };
        let v1 = match one.div(&self.baseline_variance) {
            Some(v) => v,
            None => { return None; },
        };
        let v2 = match one.div(rm) {
            Some(v) => v,
            None => { return None; },
        };
        let vden = match v1.add(&v2) {
            Some(v) => v,
            None => { return None; },
        };
        let variance = match one.div(&vden) {
            Some(v) => v,
            None => { return None; },
        };
        proof {
            lemma_tdiv_nonneg(SCALE as int * SCALE as int, vden@);
        }
        let sd = variance.sqrt();
        let scaled = match z.mul(&sd) {
            Some(v) => v,
            None => { return None; },
        };
        scaled.add(&mean)
    }
}

/// Replaying the same construction with the same sequence of requests and
/// the same injected draws reproduces an identical output trace: every
/// transition is a function of the prior state and the call's arguments
/// alone, so equal seeds and equal call sequences give bit-identical
/// output.
pub proof fn lemma_replay_deterministic(
    g1: NormalGenerator,
    g2: NormalGenerator,
    calls: Seq<WalkCall>,
)
    requires
        g1 == g2,
    ensures
        spec_run(g1, calls) == spec_run(g2, calls),
{
}

/// With an anchor in place and a positive elapsed precision, a bridge
/// request at the target time itself returns exactly the pinned value.
pub proof fn lemma_pin_exact(g: NormalGenerator, a: AnchorPoint, t: int, tv: int, z: int)
    requires
        g.anchor == Some(a),
        spec_elapsed(a.time@, t, g.sigma_xx@) matches Some(e) && e > 0,
    ensures
        spec_bridge_sample(g, t, t, tv, z) == Some(tv),
{
    assert(tdiv(0 * g.sigma_xx@, SCALE as int) == 0) by {
        assert(0 * g.sigma_xx@ == 0) by (nonlinear_arith);
    }
}

/// Before any anchor exists, a free request draws from the baseline law:
/// with a zero baseline mean and a unit baseline variance, the sample is
/// exactly the injected standard-normal draw.
pub proof fn lemma_first_draw_is_baseline(g: NormalGenerator, t: int, z: int)
    requires
        g.anchor is None,
        g.baseline_mean@ == 0,
        g.baseline_variance@ == SCALE as int,
        fits(z),
    ensures
        spec_free_sample(g, t, z) == Some(z),
{
    assert(is_sqrt(SCALE as int * SCALE as int, SCALE as int)) by (nonlinear_arith);
    lemma_sqrt_is(SCALE as int * SCALE as int, SCALE as int);
    lemma_tdiv_cancel(z, SCALE as int);
}

} // verus!
