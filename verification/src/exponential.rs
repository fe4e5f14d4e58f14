//! The exponential translator.
//!
//! Wraps a folded-uniform translator and inverts its unit-interval output
//! into an exponential marginal: a free sample is `-mean * ln(u)`, and a
//! bridged pin is first mapped into uniform space through the forward
//! transform `exp(-target / mean)` before the uniform bridge runs.

use vstd::prelude::*;

use crate::fixed::{oabs, odiv, oneg, omul, opt_val, Fixed};
use crate::normal::{spec_bridge_sample, spec_elapsed, spec_free_sample, AnchorPoint};
use crate::transcend::{exp_fx, ln_fx, oexp, oln};
use crate::uniform::{
    fold_spec, lemma_uniform_pin_exact, spec_unfolded_target, spec_uniform_bridge,
    spec_uniform_free, UniformTranslator,
};

verus! {

/// The backward transform: `-mean * ln(u)`.
pub open spec fn spec_exp_transform(mean: int, u: Option<int>) -> Option<int> {
    omul(oneg(Some(mean)), oln(u))
}

/// The forward transform of a pin into uniform space: `exp(-tv / mean)`.
pub open spec fn spec_exp_pin(mean: int, tv: int) -> Option<int> {
    oexp(odiv(oneg(Some(tv)), Some(mean)))
}

/// A folded-uniform walk inverted into an exponential marginal.
#[derive(Clone, Copy, Debug)]
pub struct ExponentialTranslator {
    /// The scale of the exponential law; strictly positive.
    pub mean: Fixed,
    /// The owned folded-uniform translator.
    pub translator: UniformTranslator,
}

/// The outcome of a bridged exponential request.
pub open spec fn spec_exp_bridge(
    e: ExponentialTranslator,
    t: int,
    tt: int,
    tv: int,
    z: int,
) -> Option<int> {
    match spec_exp_pin(e.mean@, tv) {
        Some(ut) => spec_exp_transform(e.mean@, spec_uniform_bridge(e.translator, t, tt, ut, z)),
        None => None,
    }
}

impl ExponentialTranslator {
    /// The internal invariant: a positive mean over a well-formed delegate.
    pub open spec fn wf(self) -> bool {
        self.mean@ > 0 && self.translator.wf()
    }

    /// A translator with the given scale; construction fails exactly on a
    /// non-positive mean.
    pub fn new(mean: Fixed, translator: UniformTranslator) -> (r: Option<ExponentialTranslator>)
        ensures
            mean@ <= 0 ==> r is None,
            mean@ > 0 ==> r == Some(ExponentialTranslator { mean, translator }),
    {
        if mean.raw() <= 0 {
            return None;
        }
        Some(ExponentialTranslator { mean, translator })
    }

    /// A free exponential sample at `time`, driven by the draw `z`: the
    /// inverse-transform of the delegate's folded sample. Fails when the
    /// delegate fails, on a zero folded sample (whose logarithm has no
    /// representation), or on out-of-range arithmetic.
    pub fn next(&mut self, time: Fixed, z: Fixed) -> (r: Option<Fixed>)
        requires
            old(self).wf(),
        ensures
            final(self).wf(),
            final(self).mean == old(self).mean,
            final(self).translator.generator.baseline_mean == old(
                self,
            ).translator.generator.baseline_mean,
            final(self).translator.generator.baseline_variance == old(
                self,
            ).translator.generator.baseline_variance,
            final(self).translator.generator.sigma_xx == old(self).translator.generator.sigma_xx,
            time@ < 0 ==> r is None && *final(self) == *old(self),
            time@ >= 0 ==> opt_val(r) == spec_exp_transform(
                old(self).mean@,
                spec_uniform_free(old(self).translator, time@, z@),
            ),
            time@ >= 0 ==> (match spec_free_sample(
                old(self).translator.generator,
                time@,
                z@,
            ) {
                None => *final(self) == *old(self),
                Some(s) => final(self).translator.generator.anchor matches Some(ap) && ap.time
                    == time && ap.value@ == s && (match oabs(Some(s)) {
                    None => final(self).translator.last_sample == old(self).translator.last_sample,
                    Some(av) => final(self).translator.last_sample@ == fold_spec(av),
                }),
            }),
    {
        let u = match self.translator.next(time, z) {
            Some(v) => v,
            None => { return None; },
        };
        let lnu = match ln_fx(&u) {
            Some(v) => v,
            None => { return None; },
        };
        let nm = match self.mean.neg() {
            Some(v) => v,
            None => { return None; },
        };
        nm.mul(&lnu)
    }

    /// A bridged exponential sample at `time`, pinned to `target_value` at
    /// `target_time`, driven by the draw `z`: the pin is carried into
    /// uniform space, bridged there, and the result carried back.
    pub fn next_interpolant(
        &mut self,
        time: Fixed,
        target_time: Fixed,
        target_value: Fixed,
        z: Fixed,
    ) -> (r: Option<Fixed>)
        requires
            old(self).wf(),
        ensures
            final(self).wf(),
            final(self).mean == old(self).mean,
            final(self).translator.generator.baseline_mean == old(
                self,
            ).translator.generator.baseline_mean,
            final(self).translator.generator.baseline_variance == old(
                self,
            ).translator.generator.baseline_variance,
            final(self).translator.generator.sigma_xx == old(self).translator.generator.sigma_xx,
            time@ < 0 || time@ > target_time@ ==> r is None && *final(self) == *old(self),
            time@ >= 0 && time@ <= target_time@ ==> opt_val(r) == spec_exp_bridge(
                *old(self),
                time@,
                target_time@,
                target_value@,
                z@,
            ),
            time@ >= 0 && time@ <= target_time@ ==> (match spec_exp_pin(
                old(self).mean@,
                target_value@,
            ) {
                None => r is None && *final(self) == *old(self),
                Some(ut) => (match old(self).translator.generator.anchor {
                    Some(a) => (match spec_unfolded_target(
                        a.value@,
                        old(self).translator.last_sample@,
                        ut,
                    ) {
                        None => r is None && *final(self) == *old(self),
                        Some(tn) => (match spec_bridge_sample(
                            old(self).translator.generator,
                            time@,
                            target_time@,
                            tn,
                            z@,
                        ) {
                            None => r is None && *final(self) == *old(self),
                            Some(s) => final(self).translator.generator.anchor matches Some(ap)
                                && ap.time == time && ap.value@ == s && (match oabs(Some(s)) {
                                None => final(self).translator.last_sample == old(
                                    self,
                                ).translator.last_sample,
                                Some(av) => final(self).translator.last_sample@ == fold_spec(av),
                            }),
                        }),
                    }),
                    None => (match spec_free_sample(
                        old(self).translator.generator,
                        time@,
                        z@,
                    ) {
                        None => r is None && *final(self) == *old(self),
                        Some(s) => final(self).translator.generator.anchor matches Some(ap)
                            && ap.time == time && ap.value@ == s && (match oabs(Some(s)) {
                            None => final(self).translator.last_sample == old(
                                self,
                            ).translator.last_sample,
                            Some(av) => final(self).translator.last_sample@ == fold_spec(av),
                        }),
                    }),
                }),
            }),
    {
        if time.raw() < 0 {
            return None;
        }
        if time.raw() > target_time.raw() {
            return None;
        }
        let ntv = match target_value.neg() {
            Some(v) => v,
            None => { return None; },
        };
        let q = match ntv.div(&self.mean) {
            Some(v) => v,
            None => { return None; },
        };
        let ut = match exp_fx(&q) {
            Some(v) => v,
            None => { return None; },
        };
        let u = match self.translator.next_interpolant(time, target_time, ut, z) {
            Some(v) => v,
            None => { return None; },
        };
        let lnu = match ln_fx(&u) {
            Some(v) => v,
            None => { return None; },
        };
        let nm = match self.mean.neg() {
            Some(v) => v,
            None => { return None; },
        };
        nm.mul(&lnu)
    }
}

/// At a zero remaining horizon, with the uniform layer positioned to honor
/// the pin exactly, the bridged exponential sample collapses to the
/// backward transform of the forward-transformed pin: the walk's state and
/// the injected draw drop out, and what remains is the round trip through
/// the forward and backward transforms alone.
pub proof fn lemma_exponential_pin_collapses(
    e: ExponentialTranslator,
    a: AnchorPoint,
    t: int,
    tv: int,
    z: int,
)
    requires
        e.translator.generator.anchor == Some(a),
        0 <= a.value@ < crate::fixed::SCALE as int,
        e.translator.last_sample@ == a.value@,
        spec_elapsed(a.time@, t, e.translator.generator.sigma_xx@) matches Some(el) && el > 0,
        spec_exp_pin(e.mean@, tv) matches Some(ut) && 0 <= ut < crate::fixed::SCALE as int,
    ensures
        spec_exp_bridge(e, t, t, tv, z) == (match spec_exp_pin(e.mean@, tv) {
            Some(ut) => spec_exp_transform(e.mean@, Some(ut)),
            None => None,
        }),
{
    match spec_exp_pin(e.mean@, tv) {
        Some(ut) => {
            lemma_uniform_pin_exact(e.translator, a, t, ut, z);
        },
        None => {},
    }
}

} // verus!
