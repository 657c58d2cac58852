//! The lag order: the largest admissible lag and the Schwert default.
use vstd::prelude::*;
use crate::options::{spec_ntrend, AdfError, Regression};

verus! {

/// `k^4`.
pub open spec fn pow4(k: int) -> int {
    k * k * k * k
}

/// The largest number of lagged differences that a series of `n`
/// observations admits: `n/2 - ntrend - 1` (negative when none is admitted).
pub open spec fn spec_hard_max(n: nat, r: Regression) -> int {
    (n / 2) as int - spec_ntrend(r) - 1
}

/// `k` is `ceil(12 * (n/100)^(1/4))`, Schwert's rule of thumb: the least
/// `k >= 0` with `k >= 12 * (n/100)^(1/4)`, that is with `100 k^4 >= 12^4 n`.
pub open spec fn is_schwert(n: nat, k: nat) -> bool {
    &&& 100 * pow4(k as int) >= 20736 * n
    &&& (k == 0 || 100 * pow4(k - 1) < 20736 * n)
}

/// Schwert's default maximum lag for `n` observations.
pub open spec fn spec_schwert(n: nat) -> nat {
    choose|k: nat| is_schwert(n, k)
}

/// The maximum lag that the test uses: the caller's bound when it admits
/// one (refused above `hard_max`), else the Schwert default capped at
/// `hard_max` (refused when that is negative).
pub open spec fn spec_resolve_maxlag(n: nat, maxlag: Option<usize>, r: Regression) -> Result<
    usize,
    AdfError,
> {
    let h = spec_hard_max(n, r);
    match maxlag {
        Some(m) => if m > h {
            Err(AdfError::MaxlagTooLarge { maxlag: m, hard_max: h as i64 })
        } else {
            Ok(m)
        },
        None => {
            let ml = if spec_schwert(n) <= h {
                spec_schwert(n) as int
            } else {
                h
            };
            if ml < 0 {
                Err(AdfError::TooShort)
            } else {
                Ok(ml as usize)
            }
        },
    }
}

pub proof fn lemma_pow4_monotone(a: int, b: int)
    requires
        0 <= a <= b,
    ensures
        pow4(a) <= pow4(b),
{
    assert(a * a <= b * b) by (nonlinear_arith)
        requires
            0 <= a <= b,
    ;
    assert(a * a * a <= b * b * b) by (nonlinear_arith)
        requires
            0 <= a <= b,
            a * a <= b * b,
    ;
    assert(a * a * a * a <= b * b * b * b) by (nonlinear_arith)
        requires
            0 <= a <= b,
            a * a * a <= b * b * b,
    ;
}

/// Exactly one `k` meets the Schwert characterisation.
pub proof fn lemma_schwert_unique(n: nat, k1: nat, k2: nat)
    requires
        is_schwert(n, k1),
        is_schwert(n, k2),
    ensures
        k1 == k2,
{
    if k1 < k2 {
        lemma_pow4_monotone(k1 as int, k2 - 1);
    } else if k2 < k1 {
        lemma_pow4_monotone(k2 as int, k1 - 1);
    }
}

/// `n / 2 - ntrend - 1`: the largest admissible lag (negative when none is).
pub fn hard_max(n: usize, r: Regression) -> (h: i64)
    ensures
        h == spec_hard_max(n as nat, r),
{
    let half: usize = n / 2;
    assert(half <= 0x7FFF_FFFF_FFFF_FFFF) by {
        assert(n <= 0xFFFF_FFFF_FFFF_FFFF);
    }
    (half as i64) - (r.ntrend() as i64) - 1
}

/// `ceil(12 * (n/100)^(1/4))`, computed exactly on integers.
pub fn schwert_maxlag(n: usize) -> (k: u64)
    ensures
        is_schwert(n as nat, k as nat),
        k == spec_schwert(n as nat),
{
    let target: u128 = 20736u128 * (n as u128);
    let mut k: u128 = 0;
    loop
        invariant
            target == 20736 * n,
            n <= 0xFFFF_FFFF_FFFF_FFFF,
            k <= 0x8_0000,
            k == 0 || 100 * pow4(k - 1) < target,
        ensures
            100 * pow4(k as int) >= target,
            k == 0 || 100 * pow4(k - 1) < target,
        decreases 0x8_0000 - k,
    {
        assert(k * k <= 0x40_0000_0000) by (nonlinear_arith)
            requires
                0 <= k <= 0x8_0000,
        ;
        assert(k * k * k <= 0x200_0000_0000_0000) by (nonlinear_arith)
            requires
                0 <= k <= 0x8_0000,
                k * k <= 0x40_0000_0000,
        ;
        assert(k * k * k * k <= 0x1000_0000_0000_0000_0000) by (nonlinear_arith)
            requires
                0 <= k <= 0x8_0000,
                k * k * k <= 0x200_0000_0000_0000,
        ;
        let k4: u128 = k * k * k * k;
        if 100 * k4 >= target {
            break ;
        }
        proof {
            // 100 k^4 < 20736 n < 2^79 forces k < 2^19.
            if k >= 0x8_0000 {
                lemma_pow4_monotone(0x8_0000, k as int);
                assert(pow4(0x8_0000) == 0x1000_0000_0000_0000_0000);
            }
        }
        k = k + 1;
    }
    proof {
        assert(is_schwert(n as nat, k as nat));
        let c = choose|j: nat| is_schwert(n as nat, j);
        lemma_schwert_unique(n as nat, c, k as nat);
    }
    k as u64
}

/// The maximum lag that the test will search up to, or the error by which
/// the request is refused.
pub fn resolve_maxlag(n: usize, maxlag: Option<usize>, r: Regression) -> (res: Result<
    usize,
    AdfError,
>)
    ensures
        res == spec_resolve_maxlag(n as nat, maxlag, r),
{
    let h = hard_max(n, r);
    match maxlag {
        Some(m) => {
            if h < 0 || (m as u64) > (h as u64) {
                Err(AdfError::MaxlagTooLarge { maxlag: m, hard_max: h })
            } else {
                Ok(m)
            }
        },
        None => {
            let s = schwert_maxlag(n);
            if h < 0 {
                Err(AdfError::TooShort)
            } else if s <= (h as u64) {
                Ok(s as usize)
            } else {
                Ok(h as usize)
            }
        },
    }
}

} // verus!
