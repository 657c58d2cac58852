//! The test's decisions: which inputs it refuses, how many lags it searches,
//! and which lag order the search settles on.
//!
//! The lag search is a state machine. Each step either asks the caller to fit
//! the search design restricted to its first `ncols` columns and report one
//! value of that fit (the information criterion for AIC/BIC, the t-statistic
//! of the last column for the t-statistic rule), or announces the lag order.
use vstd::prelude::*;
use crate::options::{spec_ntrend, AdfError, AutoLag, Regression};
use crate::ieee::{abs_bits, canonical_nan_bits, finite_or_nan, float_eq, float_ge, float_lt, infinity_bits, is_finite, spec_abs, spec_float_eq, spec_float_ge, spec_float_lt, spec_is_finite};
use crate::lagorder::{resolve_maxlag, spec_hard_max, spec_resolve_maxlag};
use crate::mackinnon::{pvalue_region, spec_pvalue_region, PValueRegion};
use crate::design::{response, spec_response_cell, refit_cols, refit_design, refit_rows, search_cols, search_design, search_rows, spec_refit_cell, spec_search_cell, Cell};

verus! {

/// Every element is finite.
pub open spec fn all_finite(s: Seq<u64>) -> bool {
    forall|i: int| 0 <= i < s.len() ==> #[trigger] spec_is_finite(s[i])
}

/// The series is non-empty and every element equals the first.
pub open spec fn is_constant(s: Seq<u64>) -> bool {
    s.len() > 0 && forall|i: int| 0 <= i < s.len() ==> #[trigger] spec_float_eq(s[i], s[0])
}

/// The outcome of validating a series and settling the maximum lag: a
/// non-finite element is refused first, a constant series next, then the
/// lag bound is resolved.
pub open spec fn spec_prepare(
    series: Seq<u64>,
    maxlag: Option<usize>,
    regression: Regression,
    autolag: AutoLag,
) -> Result<AdfPlan, AdfError> {
    if !all_finite(series) {
        Err(AdfError::NonFinite)
    } else if is_constant(series) {
        Err(AdfError::Constant)
    } else {
        match spec_resolve_maxlag(series.len(), maxlag, regression) {
            Ok(m) => Ok(
                AdfPlan { nobs: series.len() as usize, regression, autolag, maxlag: m },
            ),
            Err(e) => Err(e),
        }
    }
}

/// The settled parameters of one test: the series length, the options, and
/// the maximum lag.
#[derive(Clone, Copy, Debug, PartialEq, Eq)]
pub struct AdfPlan {
    pub nobs: usize,
    pub regression: Regression,
    pub autolag: AutoLag,
    pub maxlag: usize,
}

/// One step of the lag search.
#[derive(Clone, Copy, Debug, PartialEq, Eq)]
pub enum SearchStep {
    /// Fit the search design restricted to its first `ncols` columns and
    /// report the value of that fit that the method reads.
    Fit { ncols: usize },
    /// The search is over: `usedlag` lags, and the criterion value that chose
    /// them (none for a fixed lag).
    Done { usedlag: usize, icbest: Option<u64> },
}

/// What the test reports once the final regression is fitted, the
/// floating-point values as binary64 patterns.
#[derive(Clone, Copy, Debug, PartialEq, Eq)]
pub struct AdfOutcome {
    /// The t-statistic of the lagged level; NaN when the fit gave no finite value.
    pub adf_stat: u64,
    /// The formula that gives the p-value of `adf_stat`.
    pub pvalue_region: PValueRegion,
    /// Lagged differences in the final regression.
    pub usedlag: usize,
    /// Observations in the final regression.
    pub nobs: usize,
    /// The criterion value that chose the lag order (none for a fixed lag).
    pub icbest: Option<u64>,
}

/// The report for plan `p`, `usedlag` lags, criterion value `icbest` and
/// final t-statistic `t0`: the statistic if finite else NaN, its p-value
/// region, the lag order, and `nobs - 1 - usedlag` observations.
pub open spec fn spec_outcome(p: AdfPlan, usedlag: usize, icbest: Option<u64>, t0: u64) -> AdfOutcome {
    let stat = if spec_is_finite(t0) {
        t0
    } else {
        canonical_nan_bits()
    };
    AdfOutcome {
        adf_stat: stat,
        pvalue_region: spec_pvalue_region(stat, p.regression),
        usedlag,
        nobs: refit_rows(p.nobs as nat, usedlag as nat) as usize,
        icbest,
    }
}

/// The critical value of the t-statistic rule, 1.6448536269514722 (the 95%
/// quantile of the standard normal), as its binary64 pattern.
pub open spec fn tstat_stop_bits() -> u64 {
    0x3FFA_5152_0967_6ABB
}

/// The t-statistic of the last lag is significant: `|t| >= 1.6448536269514722`.
pub open spec fn significant(t: u64) -> bool {
    spec_float_ge(spec_abs(t), tstat_stop_bits())
}

/// Running minimum of the criterion values, as the search keeps it: the
/// position and value of the best so far, starting from `+inf` at
/// position 0; a value replaces the best only when strictly smaller.
pub open spec fn ic_fold(h: Seq<u64>) -> (int, u64)
    decreases h.len(),
{
    if h.len() == 0 {
        (0, infinity_bits())
    } else {
        let prev = ic_fold(h.drop_last());
        if spec_float_lt(h.last(), prev.1) {
            ((h.len() - 1) as int, h.last())
        } else {
            prev
        }
    }
}

/// The step that the search takes after the values `h` were reported.
///
/// * Fixed: done at once, with `maxlag` lags.
/// * AIC/BIC: fit `startlag, startlag + 1, ..., startlag + maxlag` columns in
///   turn, then settle on the position of the first minimum.
/// * t-statistic: fit `startlag + maxlag` columns down to `startlag`, stopping
///   at the first fit whose last t-statistic is significant.
pub open spec fn spec_search_step(p: AdfPlan, h: Seq<u64>) -> SearchStep {
    let startlag = spec_ntrend(p.regression) + 1;
    match p.autolag {
        AutoLag::Fixed => SearchStep::Done { usedlag: p.maxlag, icbest: Option::None },
        AutoLag::TStat => if h.len() == 0 {
            SearchStep::Fit { ncols: (startlag + p.maxlag) as usize }
        } else if significant(h.last()) || h.len() >= p.maxlag + 1 {
            SearchStep::Done {
                usedlag: (p.maxlag + 1 - h.len()) as usize,
                icbest: Some(spec_abs(h.last())),
            }
        } else {
            SearchStep::Fit { ncols: (startlag + p.maxlag - h.len()) as usize }
        },
        _ => if h.len() <= p.maxlag {
            SearchStep::Fit { ncols: (startlag + h.len()) as usize }
        } else {
            SearchStep::Done { usedlag: ic_fold(h).0 as usize, icbest: Some(ic_fold(h).1) }
        },
    }
}

/// `h` is a sequence of reports that the search can receive: each was asked for.
pub open spec fn reachable(p: AdfPlan, h: Seq<u64>) -> bool {
    forall|k: int| 0 <= k < h.len() ==> #[trigger] spec_search_step(p, h.take(k)) is Fit
}

impl AdfPlan {
    /// The maximum lag is admissible for the series length.
    pub open spec fn wf(&self) -> bool {
        self.maxlag <= spec_hard_max(self.nobs as nat, self.regression)
    }

    /// Validates the series (as binary64 patterns) and settles the maximum lag.
    pub fn prepare(series: &Vec<u64>, maxlag: Option<usize>, regression: Regression, autolag: AutoLag) -> (res: Result<AdfPlan, AdfError>)
        ensures
            res == spec_prepare(series@, maxlag, regression, autolag),
            res matches Ok(p) ==> p.wf(),
    {
        let n = series.len();
        let mut i: usize = 0;
        while i < n
            invariant
                n == series@.len(),
                i <= n,
                forall|j: int| 0 <= j < i ==> #[trigger] spec_is_finite(series@[j]),
            decreases n - i,
        {
            if !is_finite(series[i]) {
                return Err(AdfError::NonFinite);
            }
            i = i + 1;
        }
        assert(all_finite(series@));
        if n > 0 {
            let first = series[0];
            assert(spec_is_finite(series@[0]));
            let mut same = true;
            let mut j: usize = 1;
            assert(spec_float_eq(series@[0], series@[0]));
            while j < n
                invariant
                    n == series@.len(),
                    0 < n,
                    first == series@[0],
                    1 <= j <= n,
                    same ==> forall|k: int| 0 <= k < j ==> #[trigger] spec_float_eq(series@[k], first),
                    !same ==> !is_constant(series@),
                decreases n - j,
            {
                if !float_eq(series[j], first) {
                    same = false;
                }
                j = j + 1;
            }
            if same {
                return Err(AdfError::Constant);
            }
        }
        match resolve_maxlag(n, maxlag, regression) {
            Ok(m) => Ok(AdfPlan { nobs: n, regression, autolag, maxlag: m }),
            Err(e) => Err(e),
        }
    }

    /// Index of the first lag column in the search design: `ntrend + 1`.
    pub fn startlag(&self) -> (s: usize)
        ensures
            s == spec_ntrend(self.regression) + 1,
    {
        self.regression.ntrend() + 1
    }

    /// Rows of the search design: `nobs - 1 - maxlag`.
    pub fn search_nobs(&self) -> (rows: usize)
        requires
            self.wf(),
        ensures
            rows == search_rows(self.nobs as nat, self.maxlag as nat),
            rows >= search_cols(self.regression, self.maxlag as nat),
    {
        self.nobs - 1 - self.maxlag
    }

    /// Columns of the search design: `ntrend + 1 + maxlag`.
    pub fn search_ncols(&self) -> (cols: usize)
        requires
            self.wf(),
        ensures
            cols == search_cols(self.regression, self.maxlag as nat),
    {
        self.regression.ntrend() + 1 + self.maxlag
    }

    /// The search design, row-major; its response is the differences from
    /// index `maxlag` on.
    pub fn search_design(&self) -> (cells: Vec<Cell>)
        requires
            self.wf(),
            search_rows(self.nobs as nat, self.maxlag as nat) * search_cols(self.regression, self.maxlag as nat) <= usize::MAX,
            self.nobs + 4 <= usize::MAX,
        ensures
            cells.len() == search_rows(self.nobs as nat, self.maxlag as nat) * search_cols(self.regression, self.maxlag as nat),
            forall|i: int|
                0 <= i < cells.len() ==> #[trigger] cells@[i] == spec_search_cell(
                    self.regression,
                    self.maxlag as nat,
                    (i / search_cols(self.regression, self.maxlag as nat) as int) as nat,
                    (i % search_cols(self.regression, self.maxlag as nat) as int) as nat,
                ),
    {
        search_design(self.regression, self.nobs, self.maxlag)
    }

    /// The response of the search regression: the differences from index
    /// `maxlag` on, one per row of the search design.
    pub fn search_response(&self) -> (cells: Vec<Cell>)
        requires
            self.wf(),
        ensures
            cells.len() == search_rows(self.nobs as nat, self.maxlag as nat),
            forall|i: int|
                0 <= i < cells.len() ==> #[trigger] cells@[i] == spec_response_cell(self.maxlag as nat, i as nat),
    {
        response(self.maxlag, self.nobs - 1 - self.maxlag)
    }

    /// The response of the final regression with `usedlag` lags: the
    /// differences from index `usedlag` on, one per row of the final design.
    pub fn refit_response(&self, usedlag: usize) -> (cells: Vec<Cell>)
        requires
            self.wf(),
            usedlag <= self.maxlag,
        ensures
            cells.len() == refit_rows(self.nobs as nat, usedlag as nat),
            forall|i: int|
                0 <= i < cells.len() ==> #[trigger] cells@[i] == spec_response_cell(usedlag as nat, i as nat),
    {
        response(usedlag, self.nobs - 1 - usedlag)
    }

    /// Observations of the final regression with `usedlag` lags (the `nobs`
    /// that the test reports): `nobs - 1 - usedlag`.
    pub fn refit_nobs(&self, usedlag: usize) -> (rows: usize)
        requires
            self.wf(),
            usedlag <= self.maxlag,
        ensures
            rows == refit_rows(self.nobs as nat, usedlag as nat),
            rows >= refit_cols(self.regression, usedlag as nat),
    {
        self.nobs - 1 - usedlag
    }

    /// Columns of the final regression: `1 + usedlag + ntrend`.
    pub fn refit_ncols(&self, usedlag: usize) -> (cols: usize)
        requires
            self.wf(),
            usedlag <= self.maxlag,
        ensures
            cols == refit_cols(self.regression, usedlag as nat),
    {
        1 + usedlag + self.regression.ntrend()
    }

    /// The final design for `usedlag` lags, row-major; its response is the
    /// differences from index `usedlag` on, and the statistic is the
    /// t-statistic of column 0.
    pub fn refit_design(&self, usedlag: usize) -> (cells: Vec<Cell>)
        requires
            self.wf(),
            usedlag <= self.maxlag,
            refit_rows(self.nobs as nat, usedlag as nat) * refit_cols(self.regression, usedlag as nat) <= usize::MAX,
            self.nobs + 4 <= usize::MAX,
        ensures
            cells.len() == refit_rows(self.nobs as nat, usedlag as nat) * refit_cols(self.regression, usedlag as nat),
            forall|i: int|
                0 <= i < cells.len() ==> #[trigger] cells@[i] == spec_refit_cell(
                    self.regression,
                    usedlag as nat,
                    (i / refit_cols(self.regression, usedlag as nat) as int) as nat,
                    (i % refit_cols(self.regression, usedlag as nat) as int) as nat,
                ),
    {
        refit_design(self.regression, self.nobs, usedlag)
    }

    /// Assembles the report from the settled lag order and the t-statistic
    /// `t0` of the lagged level in the final regression.
    pub fn conclude(&self, usedlag: usize, icbest: Option<u64>, t0: u64) -> (out: AdfOutcome)
        requires
            self.wf(),
            usedlag <= self.maxlag,
        ensures
            out == spec_outcome(*self, usedlag, icbest, t0),
    {
        let adf_stat = finite_or_nan(t0);
        AdfOutcome {
            adf_stat,
            pvalue_region: pvalue_region(adf_stat, self.regression),
            usedlag,
            nobs: self.refit_nobs(usedlag),
            icbest,
        }
    }

    /// Starts the lag search.
    pub fn start_search(&self) -> (res: (LagSearch, SearchStep))
        requires
            self.wf(),
        ensures
            res.0.wf(),
            res.0.plan() == *self,
            res.0.history() == Seq::<u64>::empty(),
            res.1 == spec_search_step(*self, Seq::<u64>::empty()),
    {
        let s = LagSearch {
            plan: *self,
            count: 0,
            best: 0,
            icbest: 0x7FF0_0000_0000_0000u64,
            history: Ghost(Seq::empty()),
        };
        proof {
            assert(reachable(*self, Seq::<u64>::empty()));
        }
        let step = s.current();
        (s, step)
    }
}

/// The lag search in progress.
pub struct LagSearch {
    plan: AdfPlan,
    count: usize,
    best: usize,
    icbest: u64,
    history: Ghost<Seq<u64>>,
}

impl LagSearch {
    /// The plan that the search serves.
    pub closed spec fn plan(&self) -> AdfPlan {
        self.plan
    }

    /// The values reported so far, in order.
    pub closed spec fn history(&self) -> Seq<u64> {
        self.history@
    }

    /// The running state agrees with the reports received.
    pub closed spec fn wf(&self) -> bool {
        let h = self.history@;
        let p = self.plan;
        &&& p.wf()
        &&& self.count == h.len()
        &&& reachable(p, h)
        &&& h.len() <= p.maxlag + 1
        &&& (p.autolag is Aic || p.autolag is Bic) ==> (self.best as int, self.icbest) == ic_fold(h)
        &&& p.autolag is TStat && h.len() > 0 ==> self.icbest == spec_abs(h.last())
        &&& p.autolag is Fixed ==> h.len() == 0
    }

    /// What a well-formed search guarantees of its plan and history: the
    /// plan is admissible, every report was asked for, and there are at most
    /// `maxlag + 1` of them.
    pub proof fn lemma_wf_facts(&self)
        requires
            self.wf(),
        ensures
            self.plan().wf(),
            reachable(self.plan(), self.history()),
            self.history().len() <= self.plan().maxlag + 1,
    {
    }

    fn current(&self) -> (s: SearchStep)
        requires
            self.plan.wf(),
            self.count == self.history@.len(),
            self.history@.len() <= self.plan.maxlag + 1,
            (self.plan.autolag is Aic || self.plan.autolag is Bic) ==> (self.best as int, self.icbest) == ic_fold(self.history@),
            self.plan.autolag is TStat && self.history@.len() > 0 ==> self.icbest == spec_abs(self.history@.last()),
        ensures
            s == spec_search_step(self.plan, self.history@),
    {
        let p = self.plan;
        let startlag = p.regression.ntrend() + 1;
        match p.autolag {
            AutoLag::Fixed => SearchStep::Done { usedlag: p.maxlag, icbest: Option::None },
            AutoLag::TStat => {
                if self.count == 0 {
                    SearchStep::Fit { ncols: startlag + p.maxlag }
                } else if float_ge(self.icbest, 0x3FFA_5152_0967_6ABBu64) || self.count >= p.maxlag + 1 {
                    SearchStep::Done { usedlag: p.maxlag + 1 - self.count, icbest: Some(self.icbest) }
                } else {
                    SearchStep::Fit { ncols: startlag + p.maxlag - self.count }
                }
            },
            _ => {
                if self.count <= p.maxlag {
                    SearchStep::Fit { ncols: startlag + self.count }
                } else {
                    SearchStep::Done { usedlag: self.best, icbest: Some(self.icbest) }
                }
            },
        }
    }

    /// Hands the search the value that the last `Fit` step asked for, and
    /// returns the next step. Once the search is done it stays done and
    /// ignores further values.
    pub fn advance(&mut self, value: u64) -> (s: SearchStep)
        requires
            old(self).wf(),
        ensures
            final(self).wf(),
            final(self).plan() == old(self).plan(),
            final(self).history() == (if spec_search_step(old(self).plan(), old(self).history()) is Fit {
                old(self).history().push(value)
            } else {
                old(self).history()
            }),
            s == spec_search_step(final(self).plan(), final(self).history()),
    {
        let s = self.current();
        match s {
            SearchStep::Done { .. } => s,
            SearchStep::Fit { .. } => {
                let ghost h = self.history@;
                let ghost h2 = h.push(value);
                match self.plan.autolag {
                    AutoLag::TStat => {
                        self.icbest = abs_bits(value);
                    },
                    _ => {
                        if float_lt(value, self.icbest) {
                            self.best = self.count;
                            self.icbest = value;
                        }
                    },
                }
                self.count = self.count + 1;
                self.history = Ghost(h2);
                proof {
                    assert(h2.drop_last() =~= h);
                    assert forall|k: int| 0 <= k < h2.len() implies #[trigger] spec_search_step(
                        self.plan,
                        h2.take(k),
                    ) is Fit by {
                        if k < h.len() {
                            assert(h2.take(k) =~= h.take(k));
                        } else {
                            assert(h2.take(k) =~= h);
                        }
                    }
                }
                self.current()
            },
        }
    }
}

} // verus!
