//! Properties that relate several parts of the test.
use vstd::prelude::*;
use crate::options::{
    ascii_lower,
    ascii_lowercase,
    spec_ntrend,
    spec_parse_autolag,
    spec_parse_regression,
    spec_regression_name,
    AdfError,
    AutoLag,
    Regression,
};
use crate::ieee::{
    canonical_nan_bits,
    infinity_bits,
    spec_float_ge,
    spec_float_lt,
    spec_is_finite,
    spec_is_nan,
};
use crate::lagorder::{
    is_schwert,
    lemma_pow4_monotone,
    pow4,
    spec_hard_max,
    spec_resolve_maxlag,
    spec_schwert,
};
use crate::design::{
    refit_cols,
    refit_rows,
    search_cols,
    search_rows,
    spec_refit_cell,
    spec_response_cell,
    spec_search_cell,
};
use crate::plan::{
    ic_fold,
    reachable,
    significant,
    spec_outcome,
    spec_prepare,
    spec_search_step,
    AdfPlan,
    SearchStep,
};
use crate::mackinnon::{lemma_cutoffs_ordered, region_rank, spec_pvalue_region};

verus! {

/// The text form of every regression specification reads back as that
/// specification.
pub proof fn law_regression_name_roundtrip(r: Regression)
    ensures
        spec_parse_regression(spec_regression_name(r)) == Some(r),
{
    let name = spec_regression_name(r);
    assert(ascii_lowercase(name) =~= name);
    match r {
        Regression::C => {},
        Regression::Ct => {
            assert(name != seq!['c']);
        },
        Regression::Ctt => {
            assert(name != seq!['c']);
            assert(name != seq!['c', 't']);
        },
        Regression::N => {
            assert(name[0] != seq!['c'][0]);
            assert(name != seq!['c']);
            assert(name != seq!['c', 't']);
            assert(name != seq!['c', 't', 't']);
        },
    }
}

proof fn lemma_lowercase_idempotent(s: Seq<char>)
    ensures
        ascii_lowercase(ascii_lowercase(s)) == ascii_lowercase(s),
{
    assert forall|i: int| 0 <= i < s.len() implies ascii_lower(ascii_lower(s[i])) == ascii_lower(
        s[i],
    ) by {
        let c = s[i];
        if 'A' <= c <= 'Z' {
            assert(97 <= (c as int) + 32 <= 122);
        }
    }
    assert(ascii_lowercase(ascii_lowercase(s)) =~= ascii_lowercase(s));
}

/// Reading an option ignores ASCII case: a text and its lower-case form name
/// the same option.
pub proof fn law_parse_ignores_ascii_case(s: Seq<char>)
    ensures
        spec_parse_regression(ascii_lowercase(s)) == spec_parse_regression(s),
        spec_parse_autolag(ascii_lowercase(s)) == spec_parse_autolag(s),
{
    lemma_lowercase_idempotent(s);
}

/// Without a caller's bound, the test refuses the series exactly when it has
/// fewer than `2 * (ntrend + 1)` observations; otherwise the maximum lag is
/// Schwert's default capped at `n/2 - ntrend - 1`.
pub proof fn law_default_maxlag(n: nat, r: Regression)
    requires
        n <= usize::MAX,
    ensures
        spec_resolve_maxlag(n, Option::None, r) is Err <==> n / 2 < spec_ntrend(r) + 1,
        spec_resolve_maxlag(n, Option::None, r) matches Ok(m) ==> m == (if spec_schwert(n)
            <= spec_hard_max(n, r) {
            spec_schwert(n) as int
        } else {
            spec_hard_max(n, r)
        }),
{
}

proof fn lemma_schwert_exists_below(n: nat, k: nat)
    requires
        100 * pow4(k as int) >= 20736 * n,
    ensures
        exists|j: nat| is_schwert(n, j),
    decreases k,
{
    if k == 0 || 100 * pow4(k - 1) < 20736 * n {
        assert(is_schwert(n, k));
    } else {
        lemma_schwert_exists_below(n, (k - 1) as nat);
    }
}

/// Schwert's rule has a value for every length.
pub proof fn lemma_schwert_exists(n: nat)
    ensures
        is_schwert(n, spec_schwert(n)),
{
    let k = 20736 * n + 1;
    assert(pow4(k as int) >= k) by (nonlinear_arith)
        requires
            k >= 1,
    ;
    lemma_schwert_exists_below(n, k);
}

/// More observations never lower Schwert's default lag.
pub proof fn law_schwert_monotone(n1: nat, n2: nat)
    requires
        n1 <= n2,
    ensures
        spec_schwert(n1) <= spec_schwert(n2),
{
    lemma_schwert_exists(n1);
    lemma_schwert_exists(n2);
    let k1 = spec_schwert(n1);
    let k2 = spec_schwert(n2);
    if k1 > k2 {
        lemma_pow4_monotone(k2 as int, k1 - 1);
    }
}

/// Every lag order that a plan admits leaves at least as many rows as the
/// regressions have columns, in the search and in the final fit.
pub proof fn law_designs_not_underdetermined(p: AdfPlan, usedlag: nat)
    requires
        p.wf(),
        usedlag <= p.maxlag,
    ensures
        search_rows(p.nobs as nat, p.maxlag as nat) >= search_cols(p.regression, p.maxlag as nat),
        refit_rows(p.nobs as nat, usedlag) >= refit_cols(p.regression, usedlag),
        refit_rows(p.nobs as nat, usedlag) >= 1,
{
}

/// The final regression with `usedlag <= maxlag` lags holds the lagged level
/// and the lagged differences of the search design, in the same order, on
/// the rows that both share (the search design's row `row` is the final
/// design's row `row + maxlag - usedlag`); both regress the same difference
/// there.
pub proof fn law_refit_aligns_with_search(
    r: Regression,
    maxlag: nat,
    usedlag: nat,
    row: nat,
    col: nat,
)
    requires
        usedlag <= maxlag,
        col <= usedlag,
        maxlag + row + 4 <= usize::MAX,
    ensures
        spec_refit_cell(r, usedlag, (row + maxlag - usedlag) as nat, col) == spec_search_cell(
            r,
            maxlag,
            row,
            spec_ntrend(r) + col,
        ),
        spec_response_cell(usedlag, (row + maxlag - usedlag) as nat) == spec_response_cell(
            maxlag,
            row,
        ),
{
}

/// AIC/BIC settle on the first position of the least criterion value: no
/// reported value is smaller than the chosen one, every earlier one is NaN
/// or larger; when no value is below `+inf` the first position is chosen
/// and the best value is `+inf`.
pub proof fn law_ic_first_minimum(h: Seq<u64>)
    ensures
        forall|j: int| 0 <= j < h.len() ==> !spec_float_lt(#[trigger] h[j], ic_fold(h).1),
        ({
            let (i, b) = ic_fold(h);
            ||| b == infinity_bits() && i == 0
            ||| 0 <= i < h.len() && h[i] == b && spec_float_lt(b, infinity_bits()) && forall|j: int|
                0 <= j < i ==> !spec_float_ge(b, #[trigger] h[j])
        }),
    decreases h.len(),
{
    if h.len() > 0 {
        let t = h.drop_last();
        law_ic_first_minimum(t);
        assert forall|j: int| 0 <= j < t.len() implies #[trigger] h[j] == t[j] by {}
        let (pi, pb) = ic_fold(t);
        let v = h.last();
        assert(!spec_is_nan(pb));
        if spec_float_lt(v, pb) {
            assert forall|j: int| 0 <= j < h.len() - 1 implies !spec_float_ge(v, #[trigger] h[j]) by {
                assert(!spec_float_lt(t[j], pb));
            }
            assert forall|j: int| 0 <= j < h.len() implies !spec_float_lt(#[trigger] h[j], v) by {
                if j < h.len() - 1 {
                    assert(!spec_float_lt(t[j], pb));
                }
            }
        } else {
            assert forall|j: int| 0 <= j < h.len() implies !spec_float_lt(#[trigger] h[j], pb) by {
                if j < h.len() - 1 {
                    assert(!spec_float_lt(t[j], pb));
                }
            }
        }
    }
}

/// The t-statistic rule tests the lags from `maxlag` down, the `j`-th report
/// being for `maxlag - j` lags, and stops at the first significant one;
/// when none is, it settles on no lag.
pub proof fn law_tstat_first_significant(p: AdfPlan, h: Seq<u64>)
    requires
        p.autolag is TStat,
        reachable(p, h),
    ensures
        forall|j: int|
            0 <= j < h.len() ==> spec_search_step(p, h.take(j)) == (SearchStep::Fit {
                ncols: (spec_ntrend(p.regression) + 1 + p.maxlag - j) as usize,
            }),
        forall|j: int| 0 <= j < h.len() - 1 ==> !significant(#[trigger] h[j]),
        spec_search_step(p, h) matches SearchStep::Done { usedlag, icbest: _ } ==> {
            &&& h.len() >= 1
            &&& usedlag == p.maxlag + 1 - h.len()
            &&& (significant(h.last()) || usedlag == 0)
        },
{
    assert forall|j: int| 0 <= j < h.len() - 1 implies !significant(#[trigger] h[j]) by {
        assert(spec_search_step(p, h.take(j + 1)) is Fit);
        assert(h.take(j + 1).last() == h[j]);
    }
    assert forall|j: int| 0 <= j < h.len() implies spec_search_step(p, h.take(j)) == (
    SearchStep::Fit { ncols: (spec_ntrend(p.regression) + 1 + p.maxlag - j) as usize }) by {
        assert(spec_search_step(p, h.take(j)) is Fit);
    }
}

/// Whatever the method, the search ends within `maxlag + 1` reports and
/// settles on at most `maxlag` lags.
pub proof fn law_search_bounded(p: AdfPlan, h: Seq<u64>)
    requires
        reachable(p, h),
        h.len() <= p.maxlag + 1,
    ensures
        h.len() == p.maxlag + 1 ==> spec_search_step(p, h) is Done,
        spec_search_step(p, h) matches SearchStep::Done { usedlag, icbest: _ } ==> usedlag
            <= p.maxlag,
{
    law_ic_first_minimum(h);
}

/// The reported statistic is always finite or NaN: a fit that yields an
/// infinity is reported as NaN, never as an infinite statistic.
pub proof fn law_statistic_finite_or_nan(t0: u64)
    ensures
        ({
            let stat = if spec_is_finite(t0) {
                t0
            } else {
                canonical_nan_bits()
            };
            spec_is_finite(stat) || spec_is_nan(stat)
        }),
{
}

/// What a whole run of the test reports, once the series is accepted, the
/// search has settled and the final fit has given `t0`: the maximum lag is
/// the resolved one, the lag order is at most that, a fixed lag uses it and
/// reports no criterion value while a search reports one, the observations
/// are `n - 1 - usedlag`, and the statistic is `t0` when finite and NaN
/// otherwise.
pub proof fn law_report(
    series: Seq<u64>,
    maxlag: Option<usize>,
    regression: Regression,
    autolag: AutoLag,
    p: AdfPlan,
    h: Seq<u64>,
    usedlag: usize,
    icbest: Option<u64>,
    t0: u64,
)
    requires
        series.len() <= usize::MAX,
        spec_prepare(series, maxlag, regression, autolag) == Ok::<AdfPlan, AdfError>(p),
        reachable(p, h),
        h.len() <= p.maxlag + 1,
        spec_search_step(p, h) == (SearchStep::Done { usedlag, icbest }),
    ensures
        spec_resolve_maxlag(series.len(), maxlag, regression) == Ok::<usize, AdfError>(p.maxlag),
        usedlag <= p.maxlag,
        autolag is Fixed ==> usedlag == p.maxlag && icbest is None,
        !(autolag is Fixed) ==> icbest is Some,
        spec_outcome(p, usedlag, icbest, t0).usedlag == usedlag,
        spec_outcome(p, usedlag, icbest, t0).icbest == icbest,
        spec_outcome(p, usedlag, icbest, t0).nobs == series.len() - 1 - usedlag,
        spec_is_finite(t0) ==> spec_outcome(p, usedlag, icbest, t0).adf_stat == t0,
        spec_is_finite(spec_outcome(p, usedlag, icbest, t0).adf_stat) || spec_is_nan(
            spec_outcome(p, usedlag, icbest, t0).adf_stat,
        ),
{
    law_search_bounded(p, h);
}

/// The p-value region does not decrease as the statistic grows: `0` below
/// `tau_min`, the quadratic up to `tau_star`, the cubic up to `tau_max`, `1` above.
pub proof fn law_pvalue_region_monotone(a: u64, b: u64, r: Regression)
    requires
        spec_float_lt(a, b),
    ensures
        region_rank(spec_pvalue_region(a, r)) <= region_rank(spec_pvalue_region(b, r)),
{
    lemma_cutoffs_ordered(r);
}

// ── Laws stated from first principles ─────────────────────────────────────
//
// The laws below state what the operations do in terms of the inputs alone:
// the number of deterministic terms, the IEEE-754 magnitude field and the
// MacKinnon cut-offs are written out here, apart from the definitions that
// the operations use.

/// Deterministic terms of each regression: none for `n`, the constant for
/// `c`, constant and trend for `ct`, and the quadratic trend too for `ctt`.
pub open spec fn deterministic_terms(r: Regression) -> int {
    match r {
        Regression::N => 0,
        Regression::C => 1,
        Regression::Ct => 2,
        Regression::Ctt => 3,
    }
}

/// The magnitude field of a binary64 pattern (the value's absolute value
/// encoded monotonically); at least `0x7FF0_0000_0000_0000` means infinite or NaN.
pub open spec fn magnitude_field(b: u64) -> int {
    (b % 0x8000_0000_0000_0000) as int
}

/// A caller's maximum lag is used exactly as given whenever it does not
/// exceed `n/2 - terms - 1`, zero included, and refused with that bound
/// otherwise; the Schwert default plays no part.
pub proof fn law_caller_maxlag_used_as_given(n: nat, m: usize, r: Regression)
    requires
        n <= usize::MAX,
    ensures
        m as int <= (n / 2) as int - deterministic_terms(r) - 1 ==> spec_resolve_maxlag(
            n,
            Some(m),
            r,
        ) == Ok::<usize, AdfError>(m),
        m as int > (n / 2) as int - deterministic_terms(r) - 1 ==> spec_resolve_maxlag(
            n,
            Some(m),
            r,
        ) == Err::<usize, AdfError>(
            AdfError::MaxlagTooLarge {
                maxlag: m,
                hard_max: ((n / 2) as int - deterministic_terms(r) - 1) as i64,
            },
        ),
{
}

/// The largest admissible lag is `n/2 - terms - 1`.
pub proof fn law_hard_max(n: nat, r: Regression)
    ensures
        spec_hard_max(n, r) == (n / 2) as int - deterministic_terms(r) - 1,
{
}

/// Without a caller's bound, the maximum lag is the least `k >= 0` with
/// `100 k^4 >= 20736 n` (that is `ceil(12 (n/100)^(1/4))`), capped at
/// `n/2 - terms - 1`; the series is too short exactly when that cap is negative.
pub proof fn law_default_maxlag_from_schwert(n: nat, k: nat, r: Regression)
    requires
        n <= usize::MAX,
        100 * (k * k * k * k) >= 20736 * n,
        k == 0 || 100 * ((k - 1) * (k - 1) * (k - 1) * (k - 1)) < 20736 * n,
    ensures
        ({
            let cap = (n / 2) as int - deterministic_terms(r) - 1;
            &&& cap < 0 ==> spec_resolve_maxlag(n, Option::None, r) == Err::<usize, AdfError>(
                AdfError::TooShort,
            )
            &&& cap >= 0 ==> spec_resolve_maxlag(n, Option::None, r) == Ok::<usize, AdfError>(
                (if k <= cap {
                    k as int
                } else {
                    cap
                }) as usize,
            )
        }),
{
    lemma_schwert_exists(n);
    crate::lagorder::lemma_schwert_unique(n, k, spec_schwert(n));
}

/// Schwert's rule is exact on the lengths where `12 (n/100)^(1/4)` is a whole
/// number: `n = 100 m^4` gives `12 m`.
pub proof fn law_schwert_exact_on_fourth_powers(m: nat)
    ensures
        spec_schwert(100 * (m * m * m * m)) == 12 * m,
{
    let n = 100 * (m * m * m * m);
    let k = 12 * m;
    assert(pow4(k as int) == 20736 * (m * m * m * m)) by (nonlinear_arith)
        requires
            k == 12 * m,
    ;
    if m > 0 {
        assert(pow4(k - 1) < pow4(k as int)) by (nonlinear_arith)
            requires
                k >= 1,
        {
            lemma_pow4_monotone(k - 1, k as int);
            assert((k - 1) * (k - 1) < k * k) by (nonlinear_arith)
                requires
                    k >= 1,
            ;
            assert((k - 1) * (k - 1) * (k - 1) <= k * k * k) by (nonlinear_arith)
                requires
                    k >= 1,
            ;
            assert((k - 1) * (k - 1) * (k - 1) * (k - 1) < k * k * k * k) by (nonlinear_arith)
                requires
                    k >= 1,
                    (k - 1) * (k - 1) < k * k,
            ;
        }
    }
    assert(is_schwert(n, k));
    lemma_schwert_exists(n);
    crate::lagorder::lemma_schwert_unique(n, k, spec_schwert(n));
}

/// A series with an infinite or NaN element anywhere, the first included, is
/// refused as non-finite, whatever the options.
pub proof fn law_nonfinite_element_refused(
    series: Seq<u64>,
    maxlag: Option<usize>,
    regression: Regression,
    autolag: AutoLag,
    i: int,
)
    requires
        0 <= i < series.len(),
        magnitude_field(series[i]) >= 0x7FF0_0000_0000_0000,
    ensures
        spec_prepare(series, maxlag, regression, autolag) == Err::<crate::plan::AdfPlan, AdfError>(
            AdfError::NonFinite,
        ),
{
    assert(!spec_is_finite(series[i]));
}

/// Two binary64 patterns hold the same value: the same bits, or both a zero
/// of either sign.
pub open spec fn same_value(a: u64, b: u64) -> bool {
    a == b || (magnitude_field(a) == 0 && magnitude_field(b) == 0)
}

proof fn lemma_float_eq_is_same_value(a: u64, b: u64)
    requires
        magnitude_field(a) < 0x7FF0_0000_0000_0000,
        magnitude_field(b) < 0x7FF0_0000_0000_0000,
    ensures
        crate::ieee::spec_float_eq(a, b) <==> same_value(a, b),
{
    assert(a == (if a >= 0x8000_0000_0000_0000 { 0x8000_0000_0000_0000int } else { 0int }) + magnitude_field(a));
    assert(b == (if b >= 0x8000_0000_0000_0000 { 0x8000_0000_0000_0000int } else { 0int }) + magnitude_field(b));
}

/// A series of finite elements that all hold the same value (signed zeros
/// alike) is refused as constant; one that holds two different finite values
/// is refused for neither reason, and the plan it yields (if any) keeps the
/// series length and the options as given.
pub proof fn law_constant_and_accepted_series(
    series: Seq<u64>,
    maxlag: Option<usize>,
    regression: Regression,
    autolag: AutoLag,
)
    requires
        series.len() <= usize::MAX,
        forall|i: int|
            0 <= i < series.len() ==> magnitude_field(#[trigger] series[i]) < 0x7FF0_0000_0000_0000,
    ensures
        series.len() > 0 && (forall|i: int| 0 <= i < series.len() ==> #[trigger] same_value(series[i], series[0]))
            ==> spec_prepare(series, maxlag, regression, autolag) == Err::<AdfPlan, AdfError>(
            AdfError::Constant,
        ),
        (series.len() == 0 || exists|i: int| 0 <= i < series.len() && !#[trigger] same_value(series[i], series[0]))
            ==> spec_prepare(series, maxlag, regression, autolag) == match spec_resolve_maxlag(
            series.len(),
            maxlag,
            regression,
        ) {
            Ok(m) => Ok::<AdfPlan, AdfError>(
                AdfPlan { nobs: series.len() as usize, regression, autolag, maxlag: m },
            ),
            Err(e) => Err(e),
        },
{
    assert(crate::plan::all_finite(series)) by {
        assert forall|i: int| 0 <= i < series.len() implies #[trigger] spec_is_finite(series[i]) by {
            assert(magnitude_field(series[i]) < 0x7FF0_0000_0000_0000);
        }
    }
    if series.len() > 0 && (forall|i: int| 0 <= i < series.len() ==> #[trigger] same_value(series[i], series[0])) {
        assert forall|i: int| 0 <= i < series.len() implies #[trigger] crate::ieee::spec_float_eq(
            series[i],
            series[0],
        ) by {
            assert(same_value(series[i], series[0]));
            assert(magnitude_field(series[i]) < 0x7FF0_0000_0000_0000);
            assert(magnitude_field(series[0]) < 0x7FF0_0000_0000_0000);
            lemma_float_eq_is_same_value(series[i], series[0]);
        }
    }
    if exists|i: int| 0 <= i < series.len() && !#[trigger] same_value(series[i], series[0]) {
        let i = choose|i: int| 0 <= i < series.len() && !#[trigger] same_value(series[i], series[0]);
        assert(magnitude_field(series[i]) < 0x7FF0_0000_0000_0000);
        assert(magnitude_field(series[0]) < 0x7FF0_0000_0000_0000);
        lemma_float_eq_is_same_value(series[i], series[0]);
        assert(!crate::ieee::spec_float_eq(series[i], series[0]));
        assert(!crate::plan::is_constant(series));
    }
}

/// AIC/BIC ask, after `j <= maxlag` reports, for a fit with the deterministic
/// terms, the lagged level and `j` lagged differences: `terms + 1 + j`
/// columns; the t-statistic rule asks first for all `maxlag` lags and then one
/// fewer per report.
pub proof fn law_search_fit_columns(p: AdfPlan, h: Seq<u64>)
    requires
        p.wf(),
        reachable(p, h),
        h.len() <= p.maxlag,
    ensures
        (p.autolag is Aic || p.autolag is Bic) ==> spec_search_step(p, h) == (SearchStep::Fit {
            ncols: (deterministic_terms(p.regression) + 1 + h.len()) as usize,
        }),
        p.autolag is TStat && h.len() == 0 ==> spec_search_step(p, h) == (SearchStep::Fit {
            ncols: (deterministic_terms(p.regression) + 1 + p.maxlag) as usize,
        }),
        p.autolag is TStat && h.len() > 0 && spec_search_step(p, h) is Fit ==> spec_search_step(
            p,
            h,
        ) == (SearchStep::Fit {
            ncols: (deterministic_terms(p.regression) + 1 + p.maxlag - h.len()) as usize,
        }),
{
}

/// The lag order that a search settles on is the lag count of a fit it asked
/// for: some earlier step asked for `terms + 1 + usedlag` columns.
pub proof fn law_chosen_lag_was_fitted(p: AdfPlan, h: Seq<u64>)
    requires
        p.wf(),
        !(p.autolag is Fixed),
        reachable(p, h),
        h.len() <= p.maxlag + 1,
        spec_search_step(p, h) is Done,
    ensures
        exists|k: int|
            0 <= k < h.len() && #[trigger] spec_search_step(p, h.take(k)) == (SearchStep::Fit {
                ncols: (deterministic_terms(p.regression) + 1 + spec_search_step(
                    p,
                    h,
                )->Done_usedlag) as usize,
            }),
{
    law_ic_first_minimum(h);
    let u = spec_search_step(p, h)->Done_usedlag;
    if p.autolag is TStat {
        let k = h.len() - 1;
        law_tstat_first_significant(p, h);
        assert(spec_search_step(p, h.take(k)) is Fit);
    } else {
        let k = u as int;
        assert(h.take(k).len() == k);
        assert(spec_search_step(p, h.take(k)) is Fit);
    }
}

/// The t-statistic rule stops exactly at a report whose magnitude reaches
/// 1.6448536269514722 (binary64 pattern `0x3FFA_5152_0967_6ABB`), settling on
/// the lag count of that fit and reporting the magnitude; below it (or NaN)
/// it goes on to one lag fewer while lags remain.
pub proof fn law_tstat_threshold(p: AdfPlan, h: Seq<u64>)
    requires
        p.wf(),
        p.autolag is TStat,
        reachable(p, h),
        1 <= h.len() <= p.maxlag + 1,
    ensures
        0x3FFA_5152_0967_6ABB <= magnitude_field(h.last()) <= 0x7FF0_0000_0000_0000
            ==> spec_search_step(p, h) == (SearchStep::Done {
            usedlag: (p.maxlag + 1 - h.len()) as usize,
            icbest: Some((h.last() % 0x8000_0000_0000_0000) as u64),
        }),
        !(0x3FFA_5152_0967_6ABB <= magnitude_field(h.last()) <= 0x7FF0_0000_0000_0000) && h.len()
            <= p.maxlag ==> spec_search_step(p, h) == (SearchStep::Fit {
            ncols: (deterministic_terms(p.regression) + 1 + p.maxlag - h.len()) as usize,
        }),
{
}

/// AIC/BIC settle on the first least value: once done, no reported value is
/// smaller than the reported best, the best is the value at the chosen lag
/// order, and every earlier value is NaN or larger; when no value is below
/// `+inf` the order is 0 and the best is `+inf`.
pub proof fn law_ic_choice(p: AdfPlan, h: Seq<u64>)
    requires
        p.autolag is Aic || p.autolag is Bic,
        h.len() <= p.maxlag + 1,
        spec_search_step(p, h) is Done,
    ensures
        ({
            let u = spec_search_step(p, h)->Done_usedlag as int;
            let b = spec_search_step(p, h)->Done_icbest;
            &&& b is Some
            &&& forall|j: int| 0 <= j < h.len() ==> !spec_float_lt(#[trigger] h[j], b->0)
            &&& (b->0 == 0x7FF0_0000_0000_0000u64 && u == 0) || (u < h.len() && h[u] == b->0
                && forall|j: int| 0 <= j < u ==> !spec_float_ge(b->0, #[trigger] h[j]))
        }),
{
    law_ic_first_minimum(h);
}

/// Column `1 + usedlag + k` of the final design is the `k`-th deterministic
/// term at time `row + 1` (the constant, the trend, the squared trend), for
/// every lag order, zero included; the search design holds the same terms in
/// its first columns, row for row.
pub proof fn law_trend_columns(r: Regression, maxlag: nat, usedlag: nat, row: nat, k: nat)
    requires
        k < deterministic_terms(r),
        row + 1 <= usize::MAX,
    ensures
        spec_refit_cell(r, usedlag, row, 1 + usedlag + k) == (if k == 0 {
            crate::design::Cell::One
        } else if k == 1 {
            crate::design::Cell::Trend((row + 1) as usize)
        } else {
            crate::design::Cell::TrendSquared((row + 1) as usize)
        }),
        spec_refit_cell(r, usedlag, row, 1 + usedlag + k) == spec_search_cell(r, maxlag, row, k),
{
}

/// The lagged level of a row is the series element at the row's response
/// index, and its `j`-th lagged difference is the difference `j` places
/// before the response, in the search design and in the final design.
pub proof fn law_lag_columns(r: Regression, maxlag: nat, usedlag: nat, row: nat, j: nat)
    requires
        1 <= j,
        maxlag + row + 4 <= usize::MAX,
    ensures
        spec_search_cell(r, maxlag, row, deterministic_terms(r) as nat) == crate::design::Cell::Level(
            (maxlag + row) as usize,
        ),
        spec_response_cell(maxlag, row) == crate::design::Cell::Diff((maxlag + row) as usize),
        j <= maxlag ==> spec_search_cell(r, maxlag, row, (deterministic_terms(r) + j) as nat)
            == crate::design::Cell::Diff((maxlag + row - j) as usize),
        spec_refit_cell(r, usedlag, row, 0) == crate::design::Cell::Level((usedlag + row) as usize),
        j <= usedlag ==> spec_refit_cell(r, usedlag, row, j) == crate::design::Cell::Diff(
            (usedlag + row - j) as usize,
        ),
{
}

/// `tau_max` of each regression, written out: +inf, 2.74, 0.7, 0.54.
pub open spec fn upper_cutoff(r: Regression) -> u64 {
    match r {
        Regression::N => 0x7FF0_0000_0000_0000,
        Regression::C => 0x4005_EB85_1EB8_51EC,
        Regression::Ct => 0x3FE6_6666_6666_6666,
        Regression::Ctt => 0x3FE1_47AE_147A_E148,
    }
}

/// `tau_min` of each regression, written out: -19.04, -18.83, -16.18, -17.17.
pub open spec fn lower_cutoff(r: Regression) -> u64 {
    match r {
        Regression::N => 0xC033_0A3D_70A3_D70A,
        Regression::C => 0xC032_D47A_E147_AE14,
        Regression::Ct => 0xC030_2E14_7AE1_47AE,
        Regression::Ctt => 0xC031_2B85_1EB8_51EC,
    }
}

/// `tau_star` of each regression, written out: -1.04, -1.61, -2.89, -3.21.
pub open spec fn middle_cutoff(r: Regression) -> u64 {
    match r {
        Regression::N => 0xBFF0_A3D7_0A3D_70A4,
        Regression::C => 0xBFF9_C28F_5C28_F5C3,
        Regression::Ct => 0xC007_1EB8_51EB_851F,
        Regression::Ctt => 0xC009_AE14_7AE1_47AE,
    }
}

/// The report's p-value region is read off the cut-offs of the plan's own
/// regression: 1 above `tau_max`, 0 below `tau_min`, the quadratic up to
/// `tau_star`, the cubic otherwise (a NaN statistic included).
pub proof fn law_report_region(p: AdfPlan, usedlag: usize, icbest: Option<u64>, t0: u64)
    ensures
        ({
            let out = spec_outcome(p, usedlag, icbest, t0);
            let s = out.adf_stat;
            let r = p.regression;
            &&& spec_float_lt(upper_cutoff(r), s) ==> out.pvalue_region
                == crate::mackinnon::PValueRegion::One
            &&& spec_float_lt(s, lower_cutoff(r)) ==> out.pvalue_region
                == crate::mackinnon::PValueRegion::Zero
            &&& !spec_float_lt(s, lower_cutoff(r)) && spec_float_ge(middle_cutoff(r), s)
                ==> out.pvalue_region == crate::mackinnon::PValueRegion::SmallP
            &&& !spec_float_lt(upper_cutoff(r), s) && !spec_float_ge(middle_cutoff(r), s)
                ==> out.pvalue_region == crate::mackinnon::PValueRegion::LargeP
        }),
{
    lemma_cutoffs_ordered(p.regression);
}

/// The reported statistic is the fitted t-statistic when that is finite, and
/// a NaN (magnitude above that of infinity) when it is infinite or NaN.
pub proof fn law_statistic_nan_for_nonfinite(p: AdfPlan, usedlag: usize, icbest: Option<u64>, t0: u64)
    ensures
        magnitude_field(t0) < 0x7FF0_0000_0000_0000 ==> spec_outcome(p, usedlag, icbest, t0).adf_stat
            == t0,
        magnitude_field(t0) >= 0x7FF0_0000_0000_0000 ==> magnitude_field(
            spec_outcome(p, usedlag, icbest, t0).adf_stat,
        ) > 0x7FF0_0000_0000_0000,
{
}

/// The order on binary64 patterns is the order of the values: a NaN compares
/// with nothing; among non-negative patterns (sign bit clear) the larger
/// pattern is the larger value, among negative ones the smaller pattern; a
/// negative value is below a non-negative one unless both are zeros; `>=` is
/// the negation of `<` off NaN, and `==` holds exactly of the same value.
pub proof fn law_float_order(a: u64, b: u64)
    ensures
        magnitude_field(a) > 0x7FF0_0000_0000_0000 ==> !spec_float_lt(a, b) && !spec_float_lt(
            b,
            a,
        ) && !spec_float_ge(a, b) && !crate::ieee::spec_float_eq(a, b),
        magnitude_field(a) <= 0x7FF0_0000_0000_0000 && magnitude_field(b) <= 0x7FF0_0000_0000_0000
            ==> {
            &&& a < 0x8000_0000_0000_0000 && b < 0x8000_0000_0000_0000 ==> (spec_float_lt(a, b)
                <==> a < b)
            &&& a >= 0x8000_0000_0000_0000 && b >= 0x8000_0000_0000_0000 ==> (spec_float_lt(a, b)
                <==> a > b)
            &&& a >= 0x8000_0000_0000_0000 && b < 0x8000_0000_0000_0000 ==> (spec_float_lt(a, b)
                <==> !(magnitude_field(a) == 0 && b == 0))
            &&& a < 0x8000_0000_0000_0000 && b >= 0x8000_0000_0000_0000 ==> !spec_float_lt(a, b)
            &&& spec_float_ge(a, b) <==> !spec_float_lt(a, b)
            &&& crate::ieee::spec_float_eq(a, b) <==> same_value(a, b)
        },
        magnitude_field(a) < 0x7FF0_0000_0000_0000 <==> spec_is_finite(a),
        crate::ieee::spec_abs(a) as int == magnitude_field(a),
{
    assert(a == (if a >= 0x8000_0000_0000_0000 { 0x8000_0000_0000_0000int } else { 0int }) + magnitude_field(a));
    assert(b == (if b >= 0x8000_0000_0000_0000 { 0x8000_0000_0000_0000int } else { 0int }) + magnitude_field(b));
}

/// The search design has `n - 1 - maxlag` rows of `terms + 1 + maxlag`
/// columns; the final design `n - 1 - usedlag` rows of `1 + usedlag + terms`.
pub proof fn law_design_shapes(r: Regression, n: nat, maxlag: nat, usedlag: nat)
    ensures
        search_rows(n, maxlag) == n - 1 - maxlag,
        search_cols(r, maxlag) == deterministic_terms(r) + 1 + maxlag,
        refit_rows(n, usedlag) == n - 1 - usedlag,
        refit_cols(r, usedlag) == 1 + usedlag + deterministic_terms(r),
{
}

/// The response of the final regression is the difference at
/// `usedlag + row`, one place after the row's lagged level.
pub proof fn law_refit_response(usedlag: nat, row: nat)
    requires
        usedlag + row + 1 <= usize::MAX,
    ensures
        spec_response_cell(usedlag, row) == crate::design::Cell::Diff((usedlag + row) as usize),
{
}

/// `s` spells the lower-case word `w` with any of its letters in upper case.
pub open spec fn spelled(s: Seq<char>, w: Seq<char>) -> bool {
    s.len() == w.len() && forall|i: int|
        0 <= i < s.len() ==> (#[trigger] s[i] == w[i] || ('a' <= w[i] <= 'z' && s[i] as int == w[i]
            as int - 32))
}

proof fn lemma_spelled(s: Seq<char>, w: Seq<char>)
    requires
        forall|i: int| 0 <= i < w.len() ==> ('a' <= #[trigger] w[i] <= 'z' || w[i] == '-'),
    ensures
        spelled(s, w) <==> ascii_lowercase(s) == w,
{
    if spelled(s, w) {
        assert forall|i: int| 0 <= i < s.len() implies #[trigger] ascii_lowercase(s)[i] == w[i] by {
            let c = s[i];
            if 'A' <= c <= 'Z' {
                assert(97 <= (c as int) + 32 <= 122);
            }
        }
        assert(ascii_lowercase(s) =~= w);
    }
    if ascii_lowercase(s) == w {
        assert forall|i: int| 0 <= i < s.len() implies (#[trigger] s[i] == w[i] || ('a' <= w[i] <= 'z'
            && s[i] as int == w[i] as int - 32)) by {
            assert(ascii_lowercase(s)[i] == w[i]);
            let c = s[i];
            if 'A' <= c <= 'Z' {
                assert(97 <= (c as int) + 32 <= 122);
            }
        }
    }
}

/// The options are read by spelling: a regression is `c`, `ct`, `ctt` or
/// `n`, a method `aic`, `bic`, `t-stat` or `tstat`, or `none`, each letter in
/// either case; any other text names nothing.
pub proof fn law_parse_by_spelling(s: Seq<char>)
    ensures
        crate::options::spec_parse_regression(s) == (if spelled(s, seq!['c']) {
            Some(Regression::C)
        } else if spelled(s, seq!['c', 't']) {
            Some(Regression::Ct)
        } else if spelled(s, seq!['c', 't', 't']) {
            Some(Regression::Ctt)
        } else if spelled(s, seq!['n']) {
            Some(Regression::N)
        } else {
            Option::None
        }),
        crate::options::spec_parse_autolag(s) == (if spelled(s, seq!['a', 'i', 'c']) {
            Some(AutoLag::Aic)
        } else if spelled(s, seq!['b', 'i', 'c']) {
            Some(AutoLag::Bic)
        } else if spelled(s, seq!['t', '-', 's', 't', 'a', 't']) || spelled(
            s,
            seq!['t', 's', 't', 'a', 't'],
        ) {
            Some(AutoLag::TStat)
        } else if spelled(s, seq!['n', 'o', 'n', 'e']) {
            Some(AutoLag::Fixed)
        } else {
            Option::None
        }),
{
    lemma_spelled(s, seq!['c']);
    lemma_spelled(s, seq!['c', 't']);
    lemma_spelled(s, seq!['c', 't', 't']);
    lemma_spelled(s, seq!['n']);
    lemma_spelled(s, seq!['a', 'i', 'c']);
    lemma_spelled(s, seq!['b', 'i', 'c']);
    lemma_spelled(s, seq!['t', '-', 's', 't', 'a', 't']);
    lemma_spelled(s, seq!['t', 's', 't', 'a', 't']);
    lemma_spelled(s, seq!['n', 'o', 'n', 'e']);
}

} // verus!
