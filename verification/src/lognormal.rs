//! The log-normal translator.
//!
//! Wraps a Gaussian walk directly and reads the walk's baseline parameters
//! as the mean and variance of the logarithm of the quantity of interest. A
//! bridged pin is carried into log space before the walk bridges, and the
//! bridged sample is exponentiated on the way back; a free sample, by
//! contrast, is forwarded from the walk unchanged, without exponentiation —
//! the asymmetry is kept deliberately.

use vstd::prelude::*;

use crate::fixed::{opt_val, Fixed};
use crate::normal::{lemma_pin_exact, spec_bridge_sample, spec_elapsed, spec_free_sample, AnchorPoint, NormalGenerator};
use crate::transcend::{exp_fx, ln_fx, oexp, oln};

verus! {

/// The outcome of a bridged log-normal request: bridge in log space, then
/// exponentiate. Non-positive pins have no logarithm and fail.
pub open spec fn spec_lognormal_bridge(
    g: NormalGenerator,
    t: int,
    tt: int,
    tv: int,
    z: int,
) -> Option<int> {
    match oln(Some(tv)) {
        Some(lt) => oexp(spec_bridge_sample(g, t, tt, lt, z)),
        None => None,
    }
}

/// A Gaussian walk read as the logarithm of the emitted quantity.
#[derive(Clone, Copy, Debug)]
pub struct LogNormalTranslator {
    /// The owned underlying walk.
    pub generator: NormalGenerator,
}

impl LogNormalTranslator {
    /// The internal invariant: the owned walk is well-formed.
    pub open spec fn wf(self) -> bool {
        self.generator.wf()
    }

    /// A translator over the given walk.
    pub fn new(generator: NormalGenerator) -> (r: LogNormalTranslator)
        ensures
            r == (LogNormalTranslator { generator }),
    {
        LogNormalTranslator { generator }
    }

    /// A free sample at `current_time`, driven by the draw `z`: the walk's
    /// raw sample, forwarded unchanged.
    pub fn next(&mut self, current_time: Fixed, z: Fixed) -> (r: Option<Fixed>)
        requires
            old(self).wf(),
        ensures
            final(self).wf(),
            final(self).generator.baseline_mean == old(self).generator.baseline_mean,
            final(self).generator.baseline_variance == old(self).generator.baseline_variance,
            final(self).generator.sigma_xx == old(self).generator.sigma_xx,
            current_time@ < 0 ==> r is None && *final(self) == *old(self),
            current_time@ >= 0 ==> opt_val(r) == spec_free_sample(
                old(self).generator,
                current_time@,
                z@,
            ),
            current_time@ >= 0 ==> (match r {
                Some(s) => final(self).generator.anchor == Some(
                    AnchorPoint { time: current_time, value: s },
                ),
                None => *final(self) == *old(self),
            }),
    {
        if current_time.raw() < 0 {
            return None;
        }
        self.generator.next(current_time, z)
    }

    /// A bridged sample at `current_time`, pinned to `target_value` at
    /// `target_time`, driven by the draw `z`: the pin is carried into log
    /// space, the walk bridges there, and the sample is exponentiated.
    /// Fails on a negative time, a time past the target, a non-positive
    /// pin, or out-of-range arithmetic.
    pub fn next_interpolant(
        &mut self,
        current_time: Fixed,
        target_time: Fixed,
        target_value: Fixed,
        z: Fixed,
    ) -> (r: Option<Fixed>)
        requires
            old(self).wf(),
        ensures
            final(self).wf(),
            final(self).generator.baseline_mean == old(self).generator.baseline_mean,
            final(self).generator.baseline_variance == old(self).generator.baseline_variance,
            final(self).generator.sigma_xx == old(self).generator.sigma_xx,
            current_time@ < 0 || current_time@ > target_time@ || target_value@ <= 0 ==> r is None
                && *final(self) == *old(self),
            current_time@ >= 0 && current_time@ <= target_time@ && target_value@ > 0
                ==> opt_val(r) == spec_lognormal_bridge(
                old(self).generator,
                current_time@,
                target_time@,
                target_value@,
                z@,
            ),
            current_time@ >= 0 && current_time@ <= target_time@ && target_value@ > 0 ==> (
            match oln(Some(target_value@)) {
                None => r is None && *final(self) == *old(self),
                Some(lt) => (match spec_bridge_sample(
                    old(self).generator,
                    current_time@,
                    target_time@,
                    lt,
                    z@,
                ) {
                    None => r is None && *final(self) == *old(self),
                    Some(s) => final(self).generator.anchor matches Some(ap) && ap.time
                        == current_time && ap.value@ == s,
                }),
            }),
    {
        if current_time.raw() < 0 {
            return None;
        }
        if current_time.raw() > target_time.raw() {
            return None;
        }
        if target_value.raw() <= 0 {
            return None;
        }
        let lt = match ln_fx(&target_value) {
            Some(v) => v,
            None => { return None; },
        };
        let s = match self.generator.next_interpolant(current_time, target_time, lt, z) {
            Some(v) => v,
            None => { return None; },
        };
        exp_fx(&s)
    }
}

/// At a zero remaining horizon with an anchored walk, the bridged
/// log-normal sample collapses to the round trip of the pin through the
/// logarithm and the exponential, whatever the draw and whatever the
/// walk's parameters; non-positive pins fail.
pub proof fn lemma_lognormal_pin_collapses(
    g: NormalGenerator,
    a: AnchorPoint,
    t: int,
    tv: int,
    z: int,
)
    requires
        g.anchor == Some(a),
        spec_elapsed(a.time@, t, g.sigma_xx@) matches Some(el) && el > 0,
    ensures
        spec_lognormal_bridge(g, t, t, tv, z) == (match oln(Some(tv)) {
            Some(lt) => oexp(Some(lt)),
            None => None,
        }),
{
    match oln(Some(tv)) {
        Some(lt) => {
            lemma_pin_exact(g, a, t, lt, z);
        },
        None => {},
    }
}

} // verus!
