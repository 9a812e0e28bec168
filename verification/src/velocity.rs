//! A non-linear speed profile for the sliding-panel reveal: a piecewise-
//! linear curve through evenly spaced samples, evaluated at a progress
//! fraction.  Values are fixed-point: both progress and multipliers are
//! scaled by `VELOCITY_SCALE`, so a sample of 1500 stands for a speed
//! multiplier of one and a half.

use vstd::prelude::*;

verus! {

/// The fixed-point unit: a progress of `VELOCITY_SCALE` is the end of the
/// reveal, a sample of `VELOCITY_SCALE` a speed multiplier of one.
pub const VELOCITY_SCALE: u32 = 1000;

/// The piecewise-linear curve through `samples`, read as values at evenly
/// spaced progress points from 0 to `VELOCITY_SCALE` inclusive, evaluated
/// at progress `p`: the enclosing segment is located, and its two sample
/// values are blended linearly by the fractional position within it.
pub open spec fn curve_value(samples: Seq<int>, p: int) -> int
    recommends
        samples.len() >= 2,
        0 <= p <= VELOCITY_SCALE,
{
    let k = samples.len() - 1;
    let pos = p * k;
    let i = pos / (VELOCITY_SCALE as int);
    let frac = pos % (VELOCITY_SCALE as int);
    if i >= k {
        samples[k]
    } else {
        (samples[i] * (VELOCITY_SCALE - frac) + samples[i + 1] * frac) / (VELOCITY_SCALE as int)
    }
}

/// A velocity curve interpolated linearly through fixed-point samples.
pub struct StepsVelocity {
    steps: Vec<u32>,
}

impl StepsVelocity {
    pub closed spec fn wf(&self) -> bool {
        self.steps@.len() >= 2
    }

    /// The curve's samples as mathematical integers.
    pub closed spec fn samples(&self) -> Seq<int> {
        self.steps@.map_values(|s: u32| s as int)
    }

    /// The curve through `steps`: at least two samples, evenly spaced
    /// over the whole progress range.
    pub fn new(steps: Vec<u32>) -> (r: StepsVelocity)
        requires
            steps@.len() >= 2,
        ensures
            r.wf(),
            r.samples() == steps@.map_values(|s: u32| s as int),
    {
        StepsVelocity { steps }
    }

    /// The curve value at `progress`.  The endpoints are exact: progress
    /// 0 returns the first sample and progress `VELOCITY_SCALE` the last.
    /// Out-of-range progress is a caller-side invariant breach and is
    /// excluded, not clamped.
    pub fn get_velocity(&self, progress: u32) -> (r: u32)
        requires
            self.wf(),
            progress <= VELOCITY_SCALE,
        ensures
            r == curve_value(self.samples(), progress as int),
            progress == 0 ==> r == self.samples()[0],
            progress == VELOCITY_SCALE ==> r == self.samples().last(),
    {
        let k = self.steps.len() - 1;
        proof {
            vstd::arithmetic::mul::lemma_mul_upper_bound(
                progress as int,
                1000,
                k as int,
                usize::MAX as int,
            );
        }
        let pos: u128 = (progress as u128) * (k as u128);
        proof {
            vstd::arithmetic::mul::lemma_mul_inequality(progress as int, 1000, k as int);
            vstd::arithmetic::mul::lemma_mul_is_commutative(1000, k as int);
            assert(pos as int <= 1000 * (k as int));
            vstd::arithmetic::div_mod::lemma_div_is_ordered(pos as int, 1000 * (k as int), 1000);
            vstd::arithmetic::div_mod::lemma_div_multiples_vanish(k as int, 1000);
            assert(pos as int / 1000 <= k as int);
        }
        let i = (pos / 1000) as usize;
        let frac = (pos % 1000) as u64;
        proof {
            vstd::arithmetic::div_mod::lemma_mod_division_less_than_divisor(pos as int, 1000);
        }
        if i >= k {
            proof {
                assert(self.samples()[k as int] == self.steps@[k as int] as int);
            }
            self.steps[k]
        } else {
            let a = self.steps[i] as u64;
            let b = self.steps[i + 1] as u64;
            proof {
                vstd::arithmetic::mul::lemma_mul_upper_bound(
                    a as int,
                    u32::MAX as int,
                    1000 - frac as int,
                    1000,
                );
                vstd::arithmetic::mul::lemma_mul_upper_bound(
                    b as int,
                    u32::MAX as int,
                    frac as int,
                    1000,
                );
            }
            let blended: u64 = a * (1000 - frac) + b * frac;
            proof {
                let m = if a >= b {
                    a as int
                } else {
                    b as int
                };
                vstd::arithmetic::mul::lemma_mul_inequality(a as int, m, 1000 - frac as int);
                vstd::arithmetic::mul::lemma_mul_inequality(b as int, m, frac as int);
                vstd::arithmetic::mul::lemma_mul_is_distributive_add(m, 1000 - frac as int, frac as int);
                assert(a as int * (1000 - frac as int) + b as int * (frac as int) <= m * 1000);
                vstd::arithmetic::div_mod::lemma_div_is_ordered(blended as int, m * 1000, 1000);
                vstd::arithmetic::div_mod::lemma_div_multiples_vanish(m, 1000);
                vstd::arithmetic::mul::lemma_mul_is_commutative(1000, m);
                assert(blended as int / 1000 <= m);
            }
            let v = blended / 1000;
            proof {
                if progress == 0 {
                    assert(pos == 0);
                    vstd::arithmetic::div_mod::lemma_div_multiples_vanish(a as int, 1000);
                    vstd::arithmetic::mul::lemma_mul_is_commutative(1000, a as int);
                    assert(v == a);
                }
            }
            v as u32
        }
    }
}

} // verus!
