//! The two regression designs of the test, described cell by cell.
//!
//! A design is a row-major matrix. Each cell names the value that stands
//! there: a constant one, the trend `t` or `t^2` (`t` counts rows from 1), an
//! element of the series, or an element of its first difference
//! (`diff[i] = x[i + 1] - x[i]`). The caller reads the values from the series.
//!
//! The lag search regresses on `[trend terms | y_{t-1} | dy_{t-1} .. dy_{t-maxlag}]`
//! over the rows that `maxlag` lags leave; the final regression on
//! `[y_{t-1} | dy_{t-1} .. dy_{t-usedlag} | trend terms]` over the rows that
//! `usedlag` lags leave.
use vstd::prelude::*;
use vstd::arithmetic::div_mod::lemma_fundamental_div_mod_converse;
use vstd::arithmetic::mul::lemma_mul_is_distributive_add_other_way;
use crate::options::{spec_ntrend, Regression};

verus! {

/// What stands in one cell of a design.
#[derive(Clone, Copy, Debug, PartialEq, Eq)]
pub enum Cell {
    /// The constant term.
    One,
    /// The linear trend at time `t`.
    Trend(usize),
    /// The quadratic trend at time `t`: `t * t`.
    TrendSquared(usize),
    /// The series element `x[i]`.
    Level(usize),
    /// The first difference `x[i + 1] - x[i]`.
    Diff(usize),
}

/// The `k`-th deterministic term at time `t`.
pub open spec fn trend_cell(k: int, t: int) -> Cell {
    if k == 0 {
        Cell::One
    } else if k == 1 {
        Cell::Trend(t as usize)
    } else {
        Cell::TrendSquared(t as usize)
    }
}

/// Rows of the search design: the differences that `maxlag` lags leave.
pub open spec fn search_rows(n: nat, maxlag: nat) -> int {
    n - 1 - maxlag
}

/// Columns of the search design.
pub open spec fn search_cols(r: Regression, maxlag: nat) -> nat {
    spec_ntrend(r) + 1 + maxlag
}

/// The cell at `(row, col)` of the search design: trend terms first, then the
/// lagged level `x[maxlag + row]`, then the lagged differences
/// `diff[maxlag - j + row]` for lags `j = 1..=maxlag`.
pub open spec fn spec_search_cell(r: Regression, maxlag: nat, row: nat, col: nat) -> Cell {
    let nt = spec_ntrend(r);
    if col < nt {
        trend_cell(col as int, (row + 1) as int)
    } else if col == nt {
        Cell::Level((maxlag + row) as usize)
    } else {
        Cell::Diff((maxlag + nt + row - col) as usize)
    }
}

/// Rows of the final design for `usedlag` lags.
pub open spec fn refit_rows(n: nat, usedlag: nat) -> int {
    n - 1 - usedlag
}

/// Columns of the final design.
pub open spec fn refit_cols(r: Regression, usedlag: nat) -> nat {
    1 + usedlag + spec_ntrend(r)
}

/// The cell at `(row, col)` of the final design: the lagged level
/// `x[usedlag + row]`, the lagged differences `diff[usedlag - j + row]` for
/// `j = 1..=usedlag`, then the trend terms.
pub open spec fn spec_refit_cell(r: Regression, usedlag: nat, row: nat, col: nat) -> Cell {
    if col == 0 {
        Cell::Level((usedlag + row) as usize)
    } else if col <= usedlag {
        Cell::Diff((usedlag + row - col) as usize)
    } else {
        trend_cell(col - 1 - usedlag, (row + 1) as int)
    }
}

fn trend_at(k: usize, t: usize) -> (c: Cell)
    ensures
        c == trend_cell(k as int, t as int),
{
    if k == 0 {
        Cell::One
    } else if k == 1 {
        Cell::Trend(t)
    } else {
        Cell::TrendSquared(t)
    }
}

/// One cell of the search design.
pub fn search_cell(r: Regression, maxlag: usize, row: usize, col: usize) -> (c: Cell)
    requires
        col < search_cols(r, maxlag as nat),
        maxlag + row + 4 <= usize::MAX,
    ensures
        c == spec_search_cell(r, maxlag as nat, row as nat, col as nat),
{
    let nt = r.ntrend();
    if col < nt {
        trend_at(col, row + 1)
    } else if col == nt {
        Cell::Level(maxlag + row)
    } else {
        Cell::Diff(maxlag + nt + row - col)
    }
}

/// One cell of the final design.
pub fn refit_cell(r: Regression, usedlag: usize, row: usize, col: usize) -> (c: Cell)
    requires
        col < refit_cols(r, usedlag as nat),
        usedlag + row + 1 <= usize::MAX,
    ensures
        c == spec_refit_cell(r, usedlag as nat, row as nat, col as nat),
{
    if col == 0 {
        Cell::Level(usedlag + row)
    } else if col <= usedlag {
        Cell::Diff(usedlag + row - col)
    } else {
        trend_at(col - 1 - usedlag, row + 1)
    }
}

proof fn lemma_row_major_index(row: int, col: int, cols: int)
    requires
        0 <= row,
        0 <= col < cols,
    ensures
        (row * cols + col) / cols == row,
        (row * cols + col) % cols == col,
        row * cols + col + 1 <= (row + 1) * cols,
{
    lemma_fundamental_div_mod_converse(row * cols + col, cols, row, col);
    lemma_mul_is_distributive_add_other_way(cols, row, 1);
}

/// The whole search design, row-major.
pub fn search_design(r: Regression, n: usize, maxlag: usize) -> (cells: Vec<Cell>)
    requires
        maxlag + 1 <= n,
        search_rows(n as nat, maxlag as nat) * search_cols(r, maxlag as nat) <= usize::MAX,
        n + 4 <= usize::MAX,
    ensures
        cells.len() == search_rows(n as nat, maxlag as nat) * search_cols(r, maxlag as nat),
        forall|i: int|
            0 <= i < cells.len() ==> #[trigger] cells@[i] == spec_search_cell(
                r,
                maxlag as nat,
                (i / search_cols(r, maxlag as nat) as int) as nat,
                (i % search_cols(r, maxlag as nat) as int) as nat,
            ),
{
    let rows = n - 1 - maxlag;
    let cols = r.ntrend() + 1 + maxlag;
    let ghost gc = cols as int;
    let mut cells: Vec<Cell> = Vec::new();
    let mut row: usize = 0;
    while row < rows
        invariant
            rows == search_rows(n as nat, maxlag as nat),
            cols == search_cols(r, maxlag as nat),
            gc == cols,
            rows * cols <= usize::MAX,
            maxlag + 1 <= n,
            n + 4 <= usize::MAX,
            row <= rows,
            cells.len() == row * cols,
            forall|i: int|
                0 <= i < cells.len() ==> #[trigger] cells@[i] == spec_search_cell(
                    r,
                    maxlag as nat,
                    (i / gc) as nat,
                    (i % gc) as nat,
                ),
        decreases rows - row,
    {
        let mut col: usize = 0;
        while col < cols
            invariant
                rows == search_rows(n as nat, maxlag as nat),
                cols == search_cols(r, maxlag as nat),
                gc == cols,
                rows * cols <= usize::MAX,
                maxlag + 1 <= n,
                n + 4 <= usize::MAX,
                row < rows,
                col <= cols,
                cells.len() == row * cols + col,
                forall|i: int|
                    0 <= i < cells.len() ==> #[trigger] cells@[i] == spec_search_cell(
                        r,
                        maxlag as nat,
                        (i / gc) as nat,
                        (i % gc) as nat,
                    ),
            decreases cols - col,
        {
            proof {
                lemma_row_major_index(row as int, col as int, gc);
                assert((row + 1) * gc <= rows * gc) by (nonlinear_arith)
                    requires
                        row + 1 <= rows,
                        gc >= 0,
                ;
            }
            let c = search_cell(r, maxlag, row, col);
            cells.push(c);
            col = col + 1;
        }
        proof {
            lemma_mul_is_distributive_add_other_way(gc, row as int, 1);
        }
        row = row + 1;
    }
    cells
}

/// The whole final design for `usedlag` lags, row-major.
pub fn refit_design(r: Regression, n: usize, usedlag: usize) -> (cells: Vec<Cell>)
    requires
        usedlag + 1 <= n,
        refit_rows(n as nat, usedlag as nat) * refit_cols(r, usedlag as nat) <= usize::MAX,
        n + 4 <= usize::MAX,
    ensures
        cells.len() == refit_rows(n as nat, usedlag as nat) * refit_cols(r, usedlag as nat),
        forall|i: int|
            0 <= i < cells.len() ==> #[trigger] cells@[i] == spec_refit_cell(
                r,
                usedlag as nat,
                (i / refit_cols(r, usedlag as nat) as int) as nat,
                (i % refit_cols(r, usedlag as nat) as int) as nat,
            ),
{
    let rows = n - 1 - usedlag;
    let cols = 1 + usedlag + r.ntrend();
    let ghost gc = cols as int;
    let mut cells: Vec<Cell> = Vec::new();
    let mut row: usize = 0;
    while row < rows
        invariant
            rows == refit_rows(n as nat, usedlag as nat),
            cols == refit_cols(r, usedlag as nat),
            gc == cols,
            rows * cols <= usize::MAX,
            usedlag + 1 <= n,
            n + 4 <= usize::MAX,
            row <= rows,
            cells.len() == row * cols,
            forall|i: int|
                0 <= i < cells.len() ==> #[trigger] cells@[i] == spec_refit_cell(
                    r,
                    usedlag as nat,
                    (i / gc) as nat,
                    (i % gc) as nat,
                ),
        decreases rows - row,
    {
        let mut col: usize = 0;
        while col < cols
            invariant
                rows == refit_rows(n as nat, usedlag as nat),
                cols == refit_cols(r, usedlag as nat),
                gc == cols,
                rows * cols <= usize::MAX,
                usedlag + 1 <= n,
                n + 4 <= usize::MAX,
                row < rows,
                col <= cols,
                cells.len() == row * cols + col,
                forall|i: int|
                    0 <= i < cells.len() ==> #[trigger] cells@[i] == spec_refit_cell(
                        r,
                        usedlag as nat,
                        (i / gc) as nat,
                        (i % gc) as nat,
                    ),
            decreases cols - col,
        {
            proof {
                lemma_row_major_index(row as int, col as int, gc);
                assert((row + 1) * gc <= rows * gc) by (nonlinear_arith)
                    requires
                        row + 1 <= rows,
                        gc >= 0,
                ;
            }
            let c = refit_cell(r, usedlag, row, col);
            cells.push(c);
            col = col + 1;
        }
        proof {
            lemma_mul_is_distributive_add_other_way(gc, row as int, 1);
        }
        row = row + 1;
    }
    cells
}

/// Row `row` of the response of a regression with `lags` lagged
/// differences: the difference `diff[lags + row]`.
pub open spec fn spec_response_cell(lags: nat, row: nat) -> Cell {
    Cell::Diff((lags + row) as usize)
}

/// The response of a regression with `lags` lagged differences over `rows`
/// rows: the differences from index `lags` on.
pub fn response(lags: usize, rows: usize) -> (cells: Vec<Cell>)
    requires
        lags + rows <= usize::MAX,
    ensures
        cells.len() == rows,
        forall|i: int| 0 <= i < rows ==> #[trigger] cells@[i] == spec_response_cell(lags as nat, i as nat),
{
    let mut cells: Vec<Cell> = Vec::new();
    let mut row: usize = 0;
    while row < rows
        invariant
            lags + rows <= usize::MAX,
            row <= rows,
            cells.len() == row,
            forall|i: int| 0 <= i < row ==> #[trigger] cells@[i] == spec_response_cell(lags as nat, i as nat),
        decreases rows - row,
    {
        cells.push(Cell::Diff(lags + row));
        row = row + 1;
    }
    cells
}

/// The first `ncols` columns of a row-major matrix whose rows are `stride`
/// long, packed into a matrix of `nobs` rows of `ncols`.
pub fn extract_packed<T: Copy>(exog: &Vec<T>, nobs: usize, ncols: usize, stride: usize) -> (out:
    Vec<T>)
    requires
        ncols <= stride,
        nobs == 0 || (nobs - 1) * stride + ncols <= exog.len(),
    ensures
        out.len() == nobs * ncols,
        forall|i: int|
            0 <= i < out.len() ==> #[trigger] out@[i] == exog@[(i / ncols as int) * stride + i
                % ncols as int],
{
    let ghost gc = ncols as int;
    let ghost gs = stride as int;
    let mut out: Vec<T> = Vec::new();
    let mut row: usize = 0;
    while row < nobs
        invariant
            ncols <= stride,
            gc == ncols,
            gs == stride,
            nobs == 0 || (nobs - 1) * stride + ncols <= exog.len(),
            row <= nobs,
            out.len() == row * ncols,
            forall|i: int|
                0 <= i < out.len() ==> #[trigger] out@[i] == exog@[(i / gc) * gs + i % gc],
        decreases nobs - row,
    {
        let mut col: usize = 0;
        proof {
            assert(row * gs <= (nobs - 1) * gs) by (nonlinear_arith)
                requires
                    row <= nobs - 1,
                    gs >= 0,
            ;
        }
        let base = row * stride;
        while col < ncols
            invariant
                ncols <= stride,
                gc == ncols,
                gs == stride,
                row < nobs,
                base == row * stride,
                base + ncols <= exog.len(),
                col <= ncols,
                out.len() == row * ncols + col,
                forall|i: int|
                    0 <= i < out.len() ==> #[trigger] out@[i] == exog@[(i / gc) * gs + i % gc],
            decreases ncols - col,
        {
            proof {
                lemma_row_major_index(row as int, col as int, gc);
            }
            out.push(exog[base + col]);
            col = col + 1;
        }
        proof {
            lemma_mul_is_distributive_add_other_way(gc, row as int, 1);
        }
        row = row + 1;
    }
    proof {
        assert(out.len() == nobs * ncols);
    }
    out
}

} // verus!
