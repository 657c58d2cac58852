//! Augmented Dickey-Fuller unit-root test: the verified core.
//!
//! The test regresses the differenced series on its lagged level, lagged
//! differences and deterministic trend terms, picks the lag order, and reads
//! the t-statistic of the lagged level. This crate holds the parts of that
//! procedure that decide and arrange, each with its contract:
//!
//! * `options`: the regression and lag-selection options, their text forms,
//!   and the errors by which an input is refused;
//! * `ieee`: the binary64 encoding, through which the library classifies and
//!   orders the floating-point values that the numeric side hands it;
//! * `lagorder`: the largest admissible lag and the Schwert default;
//! * `design`: the layout of the two regression designs, cell by cell;
//! * `plan`: input validation, the lag search as a state machine, and the
//!   report;
//! * `mackinnon`: the region of the MacKinnon (1994) p-value approximation
//!   that a statistic falls in;
//! * `laws`: properties that relate several of the above.
//!
//! The floating-point arithmetic (least squares, information criteria,
//! polynomials, the normal distribution) is done by the caller, which hands
//! each result back as its IEEE-754 bit pattern.

pub mod options;
pub mod ieee;
pub mod lagorder;
pub mod design;
pub mod plan;
pub mod mackinnon;
pub mod laws;

pub use options::{AdfError, AutoLag, Regression};
pub use ieee::{abs_bits, finite_or_nan, float_eq, float_ge, float_lt, is_finite, is_nan};
pub use lagorder::{hard_max, resolve_maxlag, schwert_maxlag};
pub use design::{extract_packed, refit_cell, refit_design, response, search_cell, search_design, Cell};
pub use plan::{AdfOutcome, AdfPlan, LagSearch, SearchStep};
pub use mackinnon::{pvalue_region, PValueRegion};
