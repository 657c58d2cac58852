//! Inputs that the test refuses, checked on the validation that decides the
//! refusal.

use rsomics_adf_test::{AdfError, AdfPlan, AutoLag, Regression};

fn bits(x: &[f64]) -> Vec<u64> {
    x.iter().map(|v| v.to_bits()).collect()
}

fn prepare(x: &[f64], maxlag: Option<usize>, reg: Regression, autolag: AutoLag) -> Result<AdfPlan, AdfError> {
    AdfPlan::prepare(&bits(x), maxlag, reg, autolag)
}

/// Reads one value per non-empty line, as the command-line tool does.
fn series_from_text(input: &str) -> Vec<f64> {
    input
        .lines()
        .map(|l| l.trim())
        .filter(|l| !l.is_empty())
        .map(|l| l.parse::<f64>().expect("a number per line"))
        .collect()
}

fn assert_fail_loud(tag: &str, input: &str) {
    let x = series_from_text(input);
    let got = prepare(&x, None, Regression::C, AutoLag::Aic);
    assert!(got.is_err(), "{tag}: expected a refusal, got {got:?}");
}

#[test]
fn nan_is_rejected() {
    let x = [0.0, 1.0, f64::NAN, 3.0, 4.0, 5.0];
    assert_eq!(
        prepare(&x, None, Regression::C, AutoLag::Aic).unwrap_err(),
        AdfError::NonFinite
    );
}

#[test]
fn inf_is_rejected() {
    let x = [0.0, 1.0, f64::INFINITY, 3.0, 4.0, 5.0];
    assert_eq!(
        prepare(&x, None, Regression::C, AutoLag::Aic).unwrap_err(),
        AdfError::NonFinite
    );
}

#[test]
fn constant_is_rejected() {
    let x = [3.0; 50];
    assert_eq!(
        prepare(&x, None, Regression::C, AutoLag::Aic).unwrap_err(),
        AdfError::Constant
    );
}

#[test]
fn too_short_is_rejected() {
    // n=3, regression "c": nobs/2 - ntrend - 1 = 1 - 1 - 1 = -1 < 0.
    let x = [1.0, 2.0, 3.0];
    assert_eq!(
        prepare(&x, None, Regression::C, AutoLag::Aic).unwrap_err(),
        AdfError::TooShort
    );
}

#[test]
fn maxlag_too_large_is_rejected() {
    let x = [1.0, 2.0, 3.5, 3.0];
    let got = prepare(&x, Some(5), Regression::C, AutoLag::Fixed);
    assert!(
        matches!(got, Err(AdfError::MaxlagTooLarge { .. })),
        "got {got:?}"
    );
}

#[test]
fn bin_nan_fails_loud() {
    assert_fail_loud("nan", "0\n1\nnan\n3\n4\n5\n");
}

#[test]
fn bin_inf_fails_loud() {
    assert_fail_loud("inf", "0\n1\ninf\n3\n4\n5\n");
}

#[test]
fn bin_constant_fails_loud() {
    let s: String = std::iter::repeat_n("3.0\n", 50).collect();
    assert_fail_loud("constant", &s);
}

#[test]
fn bin_too_short_fails_loud() {
    assert_fail_loud("too_short", "1\n2\n3\n");
}

// ── further refusals and acceptances ───────────────────────────────────────

#[test]
fn maxlag_too_large_reports_bound() {
    let x = [1.0, 2.0, 3.5, 3.0];
    assert_eq!(
        prepare(&x, Some(5), Regression::C, AutoLag::Fixed).unwrap_err(),
        AdfError::MaxlagTooLarge { maxlag: 5, hard_max: 0 }
    );
    // The bound itself is admitted.
    let p = prepare(&x, Some(0), Regression::C, AutoLag::Fixed).unwrap();
    assert_eq!(p.maxlag, 0);
}

#[test]
fn huge_maxlag_is_refused_not_wrapped() {
    let x = [1.0, 2.0, 3.5, 3.0, 7.0, 1.0];
    assert_eq!(
        prepare(&x, Some(usize::MAX), Regression::N, AutoLag::Fixed).unwrap_err(),
        AdfError::MaxlagTooLarge { maxlag: usize::MAX, hard_max: 2 }
    );
}

#[test]
fn nonfinite_is_reported_before_constant() {
    let x = [f64::NEG_INFINITY, f64::NEG_INFINITY, f64::NEG_INFINITY];
    assert_eq!(
        prepare(&x, None, Regression::C, AutoLag::Aic).unwrap_err(),
        AdfError::NonFinite
    );
}

#[test]
fn constant_is_reported_before_length() {
    assert_eq!(
        prepare(&[2.5], None, Regression::C, AutoLag::Aic).unwrap_err(),
        AdfError::Constant
    );
    // Signed zeros are equal values.
    assert_eq!(
        prepare(&[0.0, -0.0, 0.0, -0.0], None, Regression::N, AutoLag::Aic).unwrap_err(),
        AdfError::Constant
    );
}

#[test]
fn empty_series_is_too_short() {
    assert_eq!(
        prepare(&[], None, Regression::N, AutoLag::Aic).unwrap_err(),
        AdfError::TooShort
    );
}

#[test]
fn short_series_per_regression() {
    // Without a caller's bound the series needs 2 * (ntrend + 1) observations.
    let x: Vec<f64> = (0..8).map(|i| (i * i) as f64).collect();
    assert!(prepare(&x[..2], None, Regression::N, AutoLag::Aic).is_ok());
    assert!(prepare(&x[..3], None, Regression::C, AutoLag::Aic).is_err());
    assert!(prepare(&x[..4], None, Regression::C, AutoLag::Aic).is_ok());
    assert_eq!(
        prepare(&x[..5], None, Regression::Ct, AutoLag::Aic).unwrap_err(),
        AdfError::TooShort
    );
    assert!(prepare(&x[..6], None, Regression::Ct, AutoLag::Aic).is_ok());
    assert!(prepare(&x[..7], None, Regression::Ctt, AutoLag::Aic).is_err());
    assert!(prepare(&x[..8], None, Regression::Ctt, AutoLag::Aic).is_ok());
}

#[test]
fn default_maxlag_of_200_observations() {
    let x: Vec<f64> = (0..200).map(|i| ((i * 37) % 11) as f64).collect();
    let p = prepare(&x, None, Regression::C, AutoLag::Aic).unwrap();
    assert_eq!(
        p,
        AdfPlan { nobs: 200, regression: Regression::C, autolag: AutoLag::Aic, maxlag: 15 }
    );
}

#[test]
fn default_maxlag_is_capped() {
    // Schwert gives 9 for 20 observations; ctt admits 20/2 - 3 - 1 = 6.
    let x: Vec<f64> = (0..20).map(|i| ((i * 7) % 5) as f64).collect();
    let p = prepare(&x, None, Regression::Ctt, AutoLag::Aic).unwrap();
    assert_eq!(p.maxlag, 6);
}

#[test]
fn refusal_messages() {
    assert_eq!(
        AdfError::NonFinite.message(),
        "series contains a non-finite value (NaN or inf)"
    );
    assert_eq!(AdfError::Constant.message(), "series is constant");
    assert_eq!(
        AdfError::TooShort.message(),
        "sample size is too short to use the selected regression component"
    );
    assert_eq!(
        AdfError::MaxlagTooLarge { maxlag: 5, hard_max: 0 }.message(),
        "maxlag 5 exceeds nobs/2 - 1 - ntrend = 0"
    );
    assert_eq!(
        AdfError::MaxlagTooLarge { maxlag: 1234567, hard_max: -3 }.message(),
        "maxlag 1234567 exceeds nobs/2 - 1 - ntrend = -3"
    );
    assert_eq!(
        AdfError::MaxlagTooLarge { maxlag: usize::MAX, hard_max: i64::MIN }.message(),
        format!("maxlag {} exceeds nobs/2 - 1 - ntrend = {}", usize::MAX, i64::MIN)
    );
    assert_eq!(
        AdfError::MaxlagTooLarge { maxlag: 10, hard_max: 90 }.message(),
        "maxlag 10 exceeds nobs/2 - 1 - ntrend = 90"
    );
}
