//! Per-peer round-trip-time estimator.
//!
//! An exponentially-weighted moving average with a smoothing factor of 0.15,
//! computed in double precision. It is fed from the transport's own
//! measurements.

use vstd::arithmetic::power2::{lemma2_to64, pow2};
use vstd::prelude::*;

use crate::binary64::{
    blend, blended, half_even, half_up, in_range, law_samples_weigh_fifteen_per_cent, on_grid,
    round_half_up, Binary64, ALPHA_MANT, BETA_MANT,
};

verus! {

#[derive(Debug, Clone, Copy, PartialEq, Eq, Structural)]
pub struct RttEstimator {
    /// Current estimate, in milliseconds. `None` until the first sample.
    current_ms: Option<Binary64>,
}

impl RttEstimator {
    #[verifier::type_invariant]
    spec fn inv(self) -> bool {
        self.current_ms matches Some(v) ==> in_range(v)
    }

    /// The exact average so far.
    pub closed spec fn average(self) -> Option<Binary64> {
        self.current_ms
    }

    /// An estimator without samples.
    pub closed spec fn fresh() -> RttEstimator {
        RttEstimator { current_ms: None }
    }

    /// The estimator after one more sample: the first is taken as it is, later
    /// ones enter with a weight of 0.15.
    pub closed spec fn after(self, rtt_ms: u32) -> RttEstimator {
        RttEstimator {
            current_ms: Some(
                match self.current_ms {
                    None => Binary64 { mant: rtt_ms as u64, exp: 0 },
                    Some(prev) => blended(prev, rtt_ms),
                },
            ),
        }
    }

    /// The average in whole milliseconds, ties to the larger one.
    pub open spec fn estimate(self) -> Option<u32> {
        match self.average() {
            Some(v) => {
                let rounded = half_up(v.mant as nat, pow2(v.exp as nat));
                Some(
                    if rounded <= u32::MAX {
                        rounded as u32
                    } else {
                        u32::MAX
                    },
                )
            },
            None => None,
        }
    }

    /// Half the estimate, or zero without one.
    pub open spec fn one_way(self) -> u32 {
        match self.estimate() {
            Some(rtt) => rtt / 2,
            None => 0,
        }
    }

    pub fn new() -> (r: Self)
        ensures
            r == RttEstimator::fresh(),
            r.average() is None,
    {
        RttEstimator { current_ms: None }
    }

    /// Ingest a new sample in milliseconds. The first sample is taken as-is;
    /// subsequent samples are blended in.
    pub fn sample(&mut self, rtt_ms: u32)
        ensures
            *final(self) == old(self).after(rtt_ms),
            final(self).average() == Some(
                match old(self).average() {
                    None => Binary64 { mant: rtt_ms as u64, exp: 0 },
                    Some(prev) => blended(prev, rtt_ms),
                },
            ),
    {
        proof {
            use_type_invariant(&*self);
            lemma2_to64();
        }
        let next = match self.current_ms {
            None => Binary64 { mant: rtt_ms as u64, exp: 0 },
            Some(prev) => blend(prev, rtt_ms),
        };
        self.current_ms = Some(next);
    }

    /// Current estimate in whole milliseconds, or `None` if no samples have
    /// been taken yet.
    pub fn estimate_ms(&self) -> (r: Option<u32>)
        ensures
            r == self.estimate(),
    {
        proof {
            use_type_invariant(self);
        }
        match self.current_ms {
            Some(v) => {
                let rounded: u64 = round_half_up(v.mant, v.exp);
                Some(
                    if rounded <= u32::MAX as u64 {
                        rounded as u32
                    } else {
                        u32::MAX
                    },
                )
            }
            None => None,
        }
    }

    /// Half the current estimate: the one-way delay applied to remote
    /// timestamps. `0` if no samples exist yet.
    pub fn one_way_ms(&self) -> (r: u32)
        ensures
            r == self.one_way(),
    {
        match self.estimate_ms() {
            Some(rtt) => rtt / 2,
            None => 0,
        }
    }

    /// Whether at least one sample has been taken.
    pub fn has_sample(&self) -> (r: bool)
        ensures
            r == (self.average() is Some),
    {
        self.current_ms.is_some()
    }
}

impl Default for RttEstimator {
    fn default() -> (r: Self)
        ensures
            r == RttEstimator::fresh(),
    {
        RttEstimator::new()
    }
}

/// An estimator without samples has no average.
pub proof fn law_fresh_estimator_has_no_average()
    ensures
        RttEstimator::fresh().average() is None,
        RttEstimator::fresh().estimate() is None,
        RttEstimator::fresh().one_way() == 0,
{
}

/// The first sample is taken verbatim.
pub proof fn law_first_sample_is_verbatim(rtt: RttEstimator, rtt_ms: u32)
    requires
        rtt.average() is None,
    ensures
        rtt.after(rtt_ms).estimate() == Some(rtt_ms),
        rtt.after(rtt_ms).one_way() == rtt_ms / 2,
{
    lemma2_to64();
    let n = rtt_ms as nat;
    assert(pow2(0) == 1);
    assert((2 * n + 1) / (2 * 1) == n) by (nonlinear_arith);
    assert(half_up(n, pow2(0)) == n);
}

/// The weights are 0.15 and one minus that, each rounded to a double.
pub proof fn law_weights()
    ensures
        half_even((3 * pow2(55)) as nat, 20) == ALPHA_MANT,
        half_even((pow2(55) - ALPHA_MANT) as nat, 4) == BETA_MANT,
{
    vstd::arithmetic::power2::lemma2_to64_rest();
}

/// The estimate is the average in whole milliseconds, to the nearest, and half of
/// it is taken for one way.
pub proof fn law_estimate_is_the_nearest(rtt: RttEstimator)
    requires
        rtt.average() is Some,
        rtt.estimate() is Some && rtt.estimate()->0 < u32::MAX,
    ensures
        ({
            let v = rtt.average()->0;
            let n = rtt.estimate()->0 as int;
            &&& (2 * n - 1) * pow2(v.exp as nat) <= 2 * v.mant
            &&& 2 * v.mant < (2 * n + 1) * pow2(v.exp as nat)
            &&& rtt.one_way() == n / 2
        }),
{
    let v = rtt.average()->0;
    let d = pow2(v.exp as nat) as int;
    vstd::arithmetic::power2::lemma_pow2_pos(v.exp as nat);
    let n = rtt.estimate()->0 as int;
    let a = 2 * v.mant as int + d;
    assert(n == a / (2 * d));
    vstd::arithmetic::div_mod::lemma_fundamental_div_mod(a, 2 * d);
    vstd::arithmetic::div_mod::lemma_mod_bound(a, 2 * d);
    assert(2 * d * n <= a < 2 * d * n + 2 * d);
    assert((2 * n - 1) * d == 2 * d * n - d) by (nonlinear_arith);
    assert((2 * n + 1) * d == 2 * d * n + d) by (nonlinear_arith);
}

/// Each later sample moves the average: twenty times the new one is three times
/// the sample and seventeen times the old one, to within a thousandth of a
/// millisecond.
pub proof fn law_later_samples_are_blended(rtt: RttEstimator, rtt_ms: u32)
    requires
        rtt.average() is Some && in_range(rtt.average()->0),
    ensures
        ({
            let after = rtt.after(rtt_ms).average();
            let wanted = 3 * (rtt_ms as int * pow2(1200)) + 17 * on_grid(rtt.average()->0);
            &&& after is Some && in_range(after->0)
            &&& 20 * on_grid(after->0) <= wanted + pow2(1190)
            &&& wanted <= 20 * on_grid(after->0) + pow2(1190)
        }),
{
    law_samples_weigh_fifteen_per_cent(rtt.average()->0, rtt_ms);
}

} // verus!
