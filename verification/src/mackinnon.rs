//! The regions of MacKinnon's (1994) p-value approximation for the test
//! statistic (one series, `N = 1`).
//!
//! Above `tau_max` the p-value is 1, below `tau_min` it is 0; between them a
//! quadratic in the statistic (up to `tau_star`) or a cubic (beyond it) is
//! passed through the normal distribution function. The cut-offs are held
//! as binary64 patterns; the decimal value stands beside each.
use vstd::prelude::*;
use crate::options::Regression;
use crate::ieee::{float_ge, float_lt, order_key, spec_float_ge, spec_float_lt, spec_is_nan};

verus! {

/// Which formula gives the p-value of a statistic.
#[derive(Clone, Copy, Debug, PartialEq, Eq)]
pub enum PValueRegion {
    /// Below `tau_min`: the p-value is 0.
    Zero,
    /// From `tau_min` to `tau_star`: the small-p quadratic.
    SmallP,
    /// Above `tau_star` up to `tau_max`, or a NaN statistic: the large-p cubic.
    LargeP,
    /// Above `tau_max`: the p-value is 1.
    One,
}

/// `tau_max`: +inf for `n`, 2.74 for `c`, 0.7 for `ct`, 0.54 for `ctt`.
pub open spec fn tau_max_bits(r: Regression) -> u64 {
    match r {
        Regression::N => 0x7FF0_0000_0000_0000,
        Regression::C => 0x4005_EB85_1EB8_51EC,
        Regression::Ct => 0x3FE6_6666_6666_6666,
        Regression::Ctt => 0x3FE1_47AE_147A_E148,
    }
}

/// `tau_min`: -19.04 for `n`, -18.83 for `c`, -16.18 for `ct`, -17.17 for `ctt`.
pub open spec fn tau_min_bits(r: Regression) -> u64 {
    match r {
        Regression::N => 0xC033_0A3D_70A3_D70A,
        Regression::C => 0xC032_D47A_E147_AE14,
        Regression::Ct => 0xC030_2E14_7AE1_47AE,
        Regression::Ctt => 0xC031_2B85_1EB8_51EC,
    }
}

/// `tau_star`: -1.04 for `n`, -1.61 for `c`, -2.89 for `ct`, -3.21 for `ctt`.
pub open spec fn tau_star_bits(r: Regression) -> u64 {
    match r {
        Regression::N => 0xBFF0_A3D7_0A3D_70A4,
        Regression::C => 0xBFF9_C28F_5C28_F5C3,
        Regression::Ct => 0xC007_1EB8_51EB_851F,
        Regression::Ctt => 0xC009_AE14_7AE1_47AE,
    }
}

/// The region of a statistic, tested in this order: `> tau_max`, then
/// `< tau_min`, then `<= tau_star`.
pub open spec fn spec_pvalue_region(stat: u64, r: Regression) -> PValueRegion {
    if spec_float_lt(tau_max_bits(r), stat) {
        PValueRegion::One
    } else if spec_float_lt(stat, tau_min_bits(r)) {
        PValueRegion::Zero
    } else if spec_float_ge(tau_star_bits(r), stat) {
        PValueRegion::SmallP
    } else {
        PValueRegion::LargeP
    }
}

/// The rank of a region along the real line: 0 (zero) to 3 (one).
pub open spec fn region_rank(g: PValueRegion) -> int {
    match g {
        PValueRegion::Zero => 0,
        PValueRegion::SmallP => 1,
        PValueRegion::LargeP => 2,
        PValueRegion::One => 3,
    }
}

fn cutoffs(r: Regression) -> (c: (u64, u64, u64))
    ensures
        c == (tau_max_bits(r), tau_min_bits(r), tau_star_bits(r)),
{
    match r {
        Regression::N => (0x7FF0_0000_0000_0000u64, 0xC033_0A3D_70A3_D70Au64, 0xBFF0_A3D7_0A3D_70A4u64),
        Regression::C => (0x4005_EB85_1EB8_51ECu64, 0xC032_D47A_E147_AE14u64, 0xBFF9_C28F_5C28_F5C3u64),
        Regression::Ct => (0x3FE6_6666_6666_6666u64, 0xC030_2E14_7AE1_47AEu64, 0xC007_1EB8_51EB_851Fu64),
        Regression::Ctt => (0x3FE1_47AE_147A_E148u64, 0xC031_2B85_1EB8_51ECu64, 0xC009_AE14_7AE1_47AEu64),
    }
}

/// The region of the MacKinnon approximation that the statistic falls in.
pub fn pvalue_region(stat: u64, r: Regression) -> (g: PValueRegion)
    ensures
        g == spec_pvalue_region(stat, r),
{
    let (tau_max, tau_min, tau_star) = cutoffs(r);
    if float_lt(tau_max, stat) {
        PValueRegion::One
    } else if float_lt(stat, tau_min) {
        PValueRegion::Zero
    } else if float_ge(tau_star, stat) {
        PValueRegion::SmallP
    } else {
        PValueRegion::LargeP
    }
}

/// The cut-offs are ordered: `tau_min < tau_star < tau_max`.
pub proof fn lemma_cutoffs_ordered(r: Regression)
    ensures
        order_key(tau_min_bits(r)) < order_key(tau_star_bits(r)) < order_key(tau_max_bits(r)),
        !spec_is_nan(tau_min_bits(r)) && !spec_is_nan(tau_star_bits(r)) && !spec_is_nan(tau_max_bits(r)),
{
}

} // verus!
