//! The folded-uniform translator.
//!
//! Wraps a Gaussian walk and folds the magnitude of each sample into the
//! closed unit interval with a triangle-wave map: on the rising limb the
//! fractional part is kept, on the falling limb it is mirrored. Bridging
//! inverts the fold around the previous raw sample's limb to reconstruct an
//! unfolded target for the underlying walk.

use vstd::prelude::*;

use crate::fixed::{oabs, oadd, opt_val, osub, tmod, Fixed, SCALE};
use crate::normal::{lemma_pin_exact, spec_bridge_sample, spec_elapsed, spec_free_sample, AnchorPoint, NormalGenerator};

verus! {

/// The triangle-wave fold of a non-negative raw value into `[0, SCALE]`.
pub open spec fn fold_spec(x: int) -> int {
    let f = x % (SCALE as int);
    if x % (2 * SCALE as int) < SCALE as int {
        f
    } else {
        SCALE as int - f
    }
}

/// Checked fold: the fold of the contents, when there are any.
pub open spec fn ofold(a: Option<int>) -> Option<int> {
    match a {
        Some(x) => Some(fold_spec(x)),
        None => None,
    }
}

/// The fold of any non-negative value lands in the closed unit interval.
pub proof fn lemma_fold_unit_interval(x: int)
    requires
        x >= 0,
    ensures
        0 <= fold_spec(x) <= SCALE as int,
{
    assert(0 <= x % (SCALE as int) < SCALE as int);
}

/// Inside the unit band the fold is the identity.
pub proof fn lemma_fold_identity_on_unit(x: int)
    requires
        0 <= x < SCALE as int,
    ensures
        fold_spec(x) == x,
{
    vstd::arithmetic::div_mod::lemma_small_mod(x as nat, SCALE as nat);
    vstd::arithmetic::div_mod::lemma_small_mod(x as nat, (2 * SCALE) as nat);
}

/// The unfolded pin target: the previous raw sample shifted by the folded
/// delta, along the limb that the previous raw sample's parity class picks.
pub open spec fn spec_unfolded_target(last_raw: int, last_fold: int, tv: int) -> Option<int> {
    if tmod(last_raw, 2 * SCALE as int) < SCALE as int {
        oadd(Some(last_raw), osub(Some(tv), Some(last_fold)))
    } else {
        osub(Some(last_raw), osub(Some(tv), Some(last_fold)))
    }
}

/// A Gaussian walk folded into the unit interval.
#[derive(Clone, Copy, Debug)]
pub struct UniformTranslator {
    /// The last folded sample; a derived cache, not a source of randomness.
    pub last_sample: Fixed,
    /// The owned underlying walk.
    pub generator: NormalGenerator,
}

/// The folded outcome of a free request.
pub open spec fn spec_uniform_free(u: UniformTranslator, t: int, z: int) -> Option<int> {
    ofold(oabs(spec_free_sample(u.generator, t, z)))
}

/// The folded outcome of a bridged request: with an anchor, the pin is
/// unfolded and bridged; without one, the pin is ignored and a free sample
/// is drawn.
pub open spec fn spec_uniform_bridge(
    u: UniformTranslator,
    t: int,
    tt: int,
    tv: int,
    z: int,
) -> Option<int> {
    match u.generator.anchor {
        Some(a) => match spec_unfolded_target(a.value@, u.last_sample@, tv) {
            Some(tn) => ofold(oabs(spec_bridge_sample(u.generator, t, tt, tn, z))),
            None => None,
        },
        None => ofold(oabs(spec_free_sample(u.generator, t, z))),
    }
}

/// Truncating remainder of a raw value by two whole units.
fn rem_two(x: &Fixed) -> (r: i64)
    ensures
        r == tmod(x@, 2 * SCALE as int),
{
    if x.raw() >= 0 {
        let xu: u64 = x.raw() as u64;
        (xu % (2 * (SCALE as u64))) as i64
    } else {
        let m: i128 = -(x.raw() as i128);
        let mu: u128 = m as u128;
        let rm: u128 = mu % (2 * (SCALE as u128));
        -(rm as i64)
    }
}

/// The triangle-wave fold of a non-negative value.
fn fold(x: &Fixed) -> (r: Fixed)
    requires
        x@ >= 0,
    ensures
        r@ == fold_spec(x@),
        0 <= r@ <= SCALE as int,
{
    let xu: u64 = x.raw() as u64;
    let m2: u64 = xu % (2 * (SCALE as u64));
    let f: u64 = xu % (SCALE as u64);
    if m2 < SCALE as u64 {
        Fixed::from_raw(f as i64)
    } else {
        Fixed::from_raw(((SCALE as u64) - f) as i64)
    }
}

impl UniformTranslator {
    /// The internal invariant: the owned walk is well-formed.
    pub open spec fn wf(self) -> bool {
        self.generator.wf()
    }

    /// A translator over the given walk, with a zero cached sample.
    pub fn new(generator: NormalGenerator) -> (r: UniformTranslator)
        ensures
            r == (UniformTranslator { last_sample: Fixed { raw: 0 }, generator }),
    {
        UniformTranslator { last_sample: Fixed::zero(), generator }
    }

    /// A free folded sample at `current_time`, driven by the draw `z`.
    /// Fails on a negative time or out-of-range arithmetic; a successful
    /// result always lies in the closed unit interval.
    pub fn next(&mut self, current_time: Fixed, z: Fixed) -> (r: Option<Fixed>)
        requires
            old(self).wf(),
        ensures
            final(self).wf(),
            final(self).generator.baseline_mean == old(self).generator.baseline_mean,
            final(self).generator.baseline_variance == old(self).generator.baseline_variance,
            final(self).generator.sigma_xx == old(self).generator.sigma_xx,
            current_time@ < 0 ==> r is None && *final(self) == *old(self),
            current_time@ >= 0 ==> opt_val(r) == spec_uniform_free(
                *old(self),
                current_time@,
                z@,
            ),
            r matches Some(f) ==> 0 <= f@ <= SCALE as int,
            current_time@ >= 0 ==> (match spec_free_sample(
                old(self).generator,
                current_time@,
                z@,
            ) {
                None => r is None && *final(self) == *old(self),
                Some(s) => final(self).generator.anchor matches Some(ap) && ap.time
                    == current_time && ap.value@ == s && (match oabs(Some(s)) {
                    None => r is None && final(self).last_sample == old(self).last_sample,
                    Some(av) => r matches Some(f) && f@ == fold_spec(av) && final(self).last_sample == f,
                }),
            }),
    {
        if current_time.raw() < 0 {
            return None;
        }
        let s = match self.generator.next(current_time, z) {
            Some(v) => v,
            None => { return None; },
        };
        let av = match s.abs() {
            Some(v) => v,
            None => { return None; },
        };
        let folded = fold(&av);
        self.last_sample = folded;
        Some(folded)
    }

    /// A bridged folded sample at `current_time`, pinned to `target_value`
    /// at `target_time`, driven by the draw `z`. With no anchor yet the pin
    /// is ignored and a free sample is drawn instead. The target check
    /// below a time check admits every value: no number is below zero and
    /// above one at once; that vacuous rejection is kept deliberately, and
    /// the fold tolerates out-of-range pins.
    pub fn next_interpolant(
        &mut self,
        current_time: Fixed,
        target_time: Fixed,
        target_value: Fixed,
        z: Fixed,
    ) -> (r: Option<Fixed>)
        requires
            old(self).wf(),
        ensures
            final(self).wf(),
            final(self).generator.baseline_mean == old(self).generator.baseline_mean,
            final(self).generator.baseline_variance == old(self).generator.baseline_variance,
            final(self).generator.sigma_xx == old(self).generator.sigma_xx,
            current_time@ < 0 || current_time@ > target_time@ ==> r is None && *final(self)
                == *old(self),
            current_time@ >= 0 && current_time@ <= target_time@ ==> opt_val(r)
                == spec_uniform_bridge(
                *old(self),
                current_time@,
                target_time@,
                target_value@,
                z@,
            ),
            r matches Some(f) ==> 0 <= f@ <= SCALE as int,
            current_time@ >= 0 && current_time@ <= target_time@ ==> (match old(self).generator.anchor {
                Some(a) => (match spec_unfolded_target(
                    a.value@,
                    old(self).last_sample@,
                    target_value@,
                ) {
                    None => r is None && *final(self) == *old(self),
                    Some(tn) => (match spec_bridge_sample(
                        old(self).generator,
                        current_time@,
                        target_time@,
                        tn,
                        z@,
                    ) {
                        None => r is None && *final(self) == *old(self),
                        Some(s) => final(self).generator.anchor matches Some(ap) && ap.time
                            == current_time && ap.value@ == s && (match oabs(Some(s)) {
                            None => r is None && final(self).last_sample == old(self).last_sample,
                            Some(av) => r matches Some(f) && f@ == fold_spec(av) && final(self).last_sample == f,
                        }),
                    }),
                }),
                None => (match spec_free_sample(old(self).generator, current_time@, z@) {
                    None => r is None && *final(self) == *old(self),
                    Some(s) => final(self).generator.anchor matches Some(ap) && ap.time
                        == current_time && ap.value@ == s && (match oabs(Some(s)) {
                        None => r is None && final(self).last_sample == old(self).last_sample,
                        Some(av) => r matches Some(f) && f@ == fold_spec(av) && final(self).last_sample == f,
                    }),
                }),
            }),
    {
        if current_time.raw() < 0 {
            return None;
        }
        if current_time.raw() > target_time.raw() {
            return None;
        }
        if target_value.raw() < 0 && target_value.raw() > SCALE {
            return None;
        }
        let anchored = match self.generator.last() {
            Some(_) => true,
            None => false,
        };
        let s: Fixed = if anchored {
            let a_value = match self.generator.last() {
                Some(v) => v,
                None => { return None; },
            };
            let delta = match target_value.sub(&self.last_sample) {
                Some(v) => v,
                None => { return None; },
            };
            let tn = if rem_two(&a_value) < SCALE {
                match a_value.add(&delta) {
                    Some(v) => v,
                    None => { return None; },
                }
            } else {
                match a_value.sub(&delta) {
                    Some(v) => v,
                    None => { return None; },
                }
            };
            match self.generator.next_interpolant(current_time, target_time, tn, z) {
                Some(v) => v,
                None => { return None; },
            }
        } else {
            match self.generator.next(current_time, z) {
                Some(v) => v,
                None => { return None; },
            }
        };
        let av = match s.abs() {
            Some(v) => v,
            None => { return None; },
        };
        let folded = fold(&av);
        self.last_sample = folded;
        Some(folded)
    }
}

/// At a zero remaining horizon, with the walk anchored on the rising limb
/// inside the unit band and the cached fold consistent with that anchor, a
/// bridged request returns exactly the pinned value, whatever the draw: the
/// unfolded target collapses to the pin, the walk pins it exactly, and the
/// fold hands it back unchanged.
pub proof fn lemma_uniform_pin_exact(u: UniformTranslator, a: AnchorPoint, t: int, tv: int, z: int)
    requires
        u.generator.anchor == Some(a),
        0 <= a.value@ < SCALE as int,
        u.last_sample@ == a.value@,
        0 <= tv < SCALE as int,
        spec_elapsed(a.time@, t, u.generator.sigma_xx@) matches Some(e) && e > 0,
    ensures
        spec_uniform_bridge(u, t, t, tv, z) == Some(tv),
{
    vstd::arithmetic::div_mod::lemma_small_mod(a.value@ as nat, (2 * SCALE) as nat);
    assert(tmod(a.value@, 2 * SCALE as int) == a.value@);
    assert(spec_unfolded_target(a.value@, u.last_sample@, tv) == Some(tv));
    lemma_pin_exact(u.generator, a, t, tv, z);
    lemma_fold_identity_on_unit(tv);
}

} // verus!
