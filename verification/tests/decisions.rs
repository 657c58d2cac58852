use rsomics_adf_test::{
    abs_bits, extract_packed, finite_or_nan, float_eq, float_ge, float_lt, hard_max, is_finite,
    is_nan, pvalue_region, refit_cell, refit_design, resolve_maxlag, response, schwert_maxlag, search_cell,
    search_design, AdfError, AdfOutcome, AdfPlan, AutoLag, Cell, PValueRegion, Regression, SearchStep,
};

fn samples() -> Vec<f64> {
    vec![
        0.0,
        -0.0,
        1.0,
        -1.0,
        0.5,
        -2.75,
        1e-310,
        -1e-310,
        f64::MIN_POSITIVE,
        f64::MAX,
        f64::MIN,
        f64::INFINITY,
        f64::NEG_INFINITY,
        f64::NAN,
        -f64::NAN,
        f64::from_bits(0x7FF0_0000_0000_0001),
        1.6448536269514722,
        -1.6448536269514722,
        1.6448536269514720,
        3.0e200,
        -7.25e-5,
    ]
}

// ── binary64 classification and order ─────────────────────────────────────

#[test]
fn classification_matches_f64() {
    for x in samples() {
        assert_eq!(is_finite(x.to_bits()), x.is_finite(), "{x:e}");
        assert_eq!(is_nan(x.to_bits()), x.is_nan(), "{x:e}");
        assert_eq!(abs_bits(x.to_bits()), x.abs().to_bits(), "{x:e}");
    }
}

#[test]
fn comparisons_match_f64() {
    for a in samples() {
        for b in samples() {
            assert_eq!(float_lt(a.to_bits(), b.to_bits()), a < b, "{a:e} < {b:e}");
            assert_eq!(float_ge(a.to_bits(), b.to_bits()), a >= b, "{a:e} >= {b:e}");
            assert_eq!(float_eq(a.to_bits(), b.to_bits()), a == b, "{a:e} == {b:e}");
        }
    }
}

#[test]
fn finite_or_nan_keeps_finite_and_replaces_others() {
    assert_eq!(finite_or_nan((-2.5f64).to_bits()), (-2.5f64).to_bits());
    assert_eq!(finite_or_nan((-0.0f64).to_bits()), (-0.0f64).to_bits());
    assert!(f64::from_bits(finite_or_nan(f64::INFINITY.to_bits())).is_nan());
    assert!(f64::from_bits(finite_or_nan(f64::NEG_INFINITY.to_bits())).is_nan());
    assert!(f64::from_bits(finite_or_nan(f64::NAN.to_bits())).is_nan());
}

// ── lag order ─────────────────────────────────────────────────────────────

fn schwert_float(n: usize) -> u64 {
    (12.0 * (n as f64 / 100.0).powf(0.25)).ceil() as u64
}

#[test]
fn schwert_values() {
    assert_eq!(schwert_maxlag(0), 0);
    assert_eq!(schwert_maxlag(1), 4);
    assert_eq!(schwert_maxlag(100), 12);
    assert_eq!(schwert_maxlag(200), 15);
    assert_eq!(schwert_maxlag(1600), 24);
    assert_eq!(schwert_maxlag(2000), 26);
}

#[test]
fn schwert_agrees_with_floating_point_rule() {
    for n in 0..300_000usize {
        assert_eq!(schwert_maxlag(n), schwert_float(n), "n = {n}");
    }
    for n in [1_000_000usize, 8_100, 25_600, 12_345_678, 999_999_999] {
        assert_eq!(schwert_maxlag(n), schwert_float(n), "n = {n}");
    }
}

#[test]
fn schwert_is_monotone() {
    let mut prev = 0;
    for n in 0..50_000usize {
        let k = schwert_maxlag(n);
        assert!(k >= prev);
        prev = k;
    }
}

#[test]
fn hard_max_values() {
    assert_eq!(hard_max(200, Regression::C), 98);
    assert_eq!(hard_max(200, Regression::Ctt), 96);
    assert_eq!(hard_max(201, Regression::N), 99);
    assert_eq!(hard_max(3, Regression::C), -1);
    assert_eq!(hard_max(0, Regression::Ct), -3);
}

#[test]
fn resolve_maxlag_cases() {
    assert_eq!(resolve_maxlag(200, None, Regression::C), Ok(15));
    assert_eq!(resolve_maxlag(200, Some(4), Regression::C), Ok(4));
    assert_eq!(resolve_maxlag(200, Some(98), Regression::C), Ok(98));
    assert_eq!(
        resolve_maxlag(200, Some(99), Regression::C),
        Err(AdfError::MaxlagTooLarge { maxlag: 99, hard_max: 98 })
    );
    assert_eq!(resolve_maxlag(3, None, Regression::C), Err(AdfError::TooShort));
    assert_eq!(resolve_maxlag(10, None, Regression::C), Ok(3));
}

// ── designs ───────────────────────────────────────────────────────────────

#[test]
fn search_design_ct_layout() {
    // n = 8, maxlag = 2: rows 8 - 1 - 2 = 5, columns [1, t, y_{t-1}, dy_{t-1}, dy_{t-2}].
    let d = search_design(Regression::Ct, 8, 2);
    assert_eq!(d.len(), 5 * 5);
    assert_eq!(&d[0..5], &[Cell::One, Cell::Trend(1), Cell::Level(2), Cell::Diff(1), Cell::Diff(0)]);
    assert_eq!(&d[20..25], &[Cell::One, Cell::Trend(5), Cell::Level(6), Cell::Diff(5), Cell::Diff(4)]);
    assert_eq!(search_cell(Regression::Ct, 2, 3, 3), Cell::Diff(4));
}

#[test]
fn search_design_n_and_ctt_layout() {
    let d = search_design(Regression::N, 5, 1);
    assert_eq!(d, vec![Cell::Level(1), Cell::Diff(0), Cell::Level(2), Cell::Diff(1), Cell::Level(3), Cell::Diff(2)]);
    let d = search_design(Regression::Ctt, 9, 0);
    assert_eq!(d.len(), 8 * 4);
    assert_eq!(&d[4..8], &[Cell::One, Cell::Trend(2), Cell::TrendSquared(2), Cell::Level(1)]);
}

#[test]
fn refit_design_ctt_layout() {
    // n = 8, usedlag = 2: rows 5, columns [y_{t-1}, dy_{t-1}, dy_{t-2}, 1, t, t^2].
    let d = refit_design(Regression::Ctt, 8, 2);
    assert_eq!(d.len(), 5 * 6);
    assert_eq!(
        &d[0..6],
        &[Cell::Level(2), Cell::Diff(1), Cell::Diff(0), Cell::One, Cell::Trend(1), Cell::TrendSquared(1)]
    );
    assert_eq!(
        &d[24..30],
        &[Cell::Level(6), Cell::Diff(5), Cell::Diff(4), Cell::One, Cell::Trend(5), Cell::TrendSquared(5)]
    );
    assert_eq!(refit_cell(Regression::Ctt, 2, 4, 5), Cell::TrendSquared(5));
}

#[test]
fn refit_aligns_with_search() {
    // The lag columns of the final fit with 1 lag repeat those of the search
    // with 3 lags, two rows further down.
    let maxlag = 3;
    let usedlag = 1;
    for row in 0..4 {
        for col in 0..=usedlag {
            assert_eq!(
                refit_cell(Regression::C, usedlag, row + maxlag - usedlag, col),
                search_cell(Regression::C, maxlag, row, 1 + col)
            );
        }
    }
}

#[test]
fn extract_packed_takes_leading_columns() {
    let m: Vec<u32> = (0..12).collect(); // 3 rows of 4
    assert_eq!(extract_packed(&m, 3, 2, 4), vec![0, 1, 4, 5, 8, 9]);
    assert_eq!(extract_packed(&m, 2, 4, 4), vec![0, 1, 2, 3, 4, 5, 6, 7]);
    let d = search_design(Regression::C, 8, 2);
    let p = extract_packed(&d, 5, 2, 4);
    assert_eq!(&p[0..4], &[Cell::One, Cell::Level(2), Cell::One, Cell::Level(3)]);
}

#[test]
fn extract_packed_edge_shapes() {
    let m: Vec<u32> = (0..10).collect();
    // No column requested.
    assert_eq!(extract_packed(&m, 3, 0, 4), Vec::<u32>::new());
    // The last row need only hold the requested columns.
    assert_eq!(extract_packed(&m, 3, 2, 4), vec![0, 1, 4, 5, 8, 9]);
    assert_eq!(extract_packed(&m, 0, 2, 4), Vec::<u32>::new());
    // Stride equal to the width: the leading rows unchanged.
    assert_eq!(extract_packed(&m, 2, 5, 5), m);
}

#[test]
fn responses_start_at_the_lag_order() {
    assert_eq!(response(2, 3), vec![Cell::Diff(2), Cell::Diff(3), Cell::Diff(4)]);
    assert_eq!(response(0, 0), Vec::<Cell>::new());
    let p = AdfPlan { nobs: 10, regression: Regression::C, autolag: AutoLag::Aic, maxlag: 3 };
    assert_eq!(p.search_response(), response(3, 6));
    assert_eq!(p.refit_response(1), response(1, 8));
}

// ── plans and the lag search ──────────────────────────────────────────────

fn plan(nobs: usize, regression: Regression, autolag: AutoLag, maxlag: usize) -> AdfPlan {
    AdfPlan { nobs, regression, autolag, maxlag }
}

#[test]
fn plan_shapes() {
    let p = plan(200, Regression::C, AutoLag::Fixed, 4);
    assert_eq!(p.startlag(), 2);
    assert_eq!(p.search_nobs(), 195);
    assert_eq!(p.search_ncols(), 6);
    assert_eq!(p.refit_nobs(0), 199);
    assert_eq!(p.refit_nobs(4), 195);
    assert_eq!(p.refit_ncols(3), 5);
    assert_eq!(p.search_design().len(), 195 * 6);
    assert_eq!(p.refit_design(3).len(), 196 * 5);
}

#[test]
fn fixed_lag_search_is_done_at_once() {
    let p = plan(200, Regression::C, AutoLag::Fixed, 4);
    let (mut s, step) = p.start_search();
    assert_eq!(step, SearchStep::Done { usedlag: 4, icbest: None });
    assert_eq!(s.advance(1.0f64.to_bits()), SearchStep::Done { usedlag: 4, icbest: None });
}

#[test]
fn ic_search_takes_first_minimum() {
    let p = plan(50, Regression::C, AutoLag::Aic, 3);
    let (mut s, step) = p.start_search();
    assert_eq!(step, SearchStep::Fit { ncols: 2 });
    assert_eq!(s.advance(5.0f64.to_bits()), SearchStep::Fit { ncols: 3 });
    assert_eq!(s.advance(3.0f64.to_bits()), SearchStep::Fit { ncols: 4 });
    assert_eq!(s.advance(3.0f64.to_bits()), SearchStep::Fit { ncols: 5 });
    let done = s.advance(4.0f64.to_bits());
    assert_eq!(done, SearchStep::Done { usedlag: 1, icbest: Some(3.0f64.to_bits()) });
    // Further values are ignored.
    assert_eq!(s.advance((-9.0f64).to_bits()), done);
}

#[test]
fn ic_search_skips_nan_and_keeps_infinity_start() {
    let p = plan(50, Regression::N, AutoLag::Bic, 2);
    let (mut s, step) = p.start_search();
    assert_eq!(step, SearchStep::Fit { ncols: 1 });
    s.advance(f64::NAN.to_bits());
    s.advance((-1.0f64).to_bits());
    assert_eq!(
        s.advance(f64::NAN.to_bits()),
        SearchStep::Done { usedlag: 1, icbest: Some((-1.0f64).to_bits()) }
    );

    let (mut s, _) = p.start_search();
    s.advance(f64::NAN.to_bits());
    s.advance(f64::INFINITY.to_bits());
    assert_eq!(
        s.advance(f64::NAN.to_bits()),
        SearchStep::Done { usedlag: 0, icbest: Some(f64::INFINITY.to_bits()) }
    );
}

#[test]
fn tstat_search_stops_at_first_significant() {
    let p = plan(50, Regression::Ct, AutoLag::TStat, 3);
    let (mut s, step) = p.start_search();
    assert_eq!(step, SearchStep::Fit { ncols: 6 });
    assert_eq!(s.advance(0.5f64.to_bits()), SearchStep::Fit { ncols: 5 });
    assert_eq!(s.advance((-1.6f64).to_bits()), SearchStep::Fit { ncols: 4 });
    assert_eq!(
        s.advance((-2.0f64).to_bits()),
        SearchStep::Done { usedlag: 1, icbest: Some(2.0f64.to_bits()) }
    );
}

#[test]
fn tstat_search_exact_critical_value_is_significant() {
    let p = plan(50, Regression::C, AutoLag::TStat, 2);
    let (mut s, _) = p.start_search();
    assert_eq!(
        s.advance(1.6448536269514722f64.to_bits()),
        SearchStep::Done { usedlag: 2, icbest: Some(1.6448536269514722f64.to_bits()) }
    );
}

#[test]
fn tstat_search_without_significant_lag_uses_none() {
    let p = plan(50, Regression::C, AutoLag::TStat, 2);
    let (mut s, _) = p.start_search();
    assert_eq!(s.advance(0.1f64.to_bits()), SearchStep::Fit { ncols: 3 });
    assert_eq!(s.advance(f64::NAN.to_bits()), SearchStep::Fit { ncols: 2 });
    assert_eq!(
        s.advance((-0.25f64).to_bits()),
        SearchStep::Done { usedlag: 0, icbest: Some(0.25f64.to_bits()) }
    );
}

#[test]
fn conclude_reports_statistic_nobs_and_region() {
    let p = plan(200, Regression::C, AutoLag::Aic, 14);
    let out = p.conclude(0, Some(123.5f64.to_bits()), (-2.3072851790645248f64).to_bits());
    assert_eq!(
        out,
        AdfOutcome {
            adf_stat: (-2.3072851790645248f64).to_bits(),
            pvalue_region: PValueRegion::SmallP,
            usedlag: 0,
            nobs: 199,
            icbest: Some(123.5f64.to_bits()),
        }
    );
    let out = p.conclude(4, None, f64::NEG_INFINITY.to_bits());
    assert!(f64::from_bits(out.adf_stat).is_nan());
    assert_eq!(out.nobs, 195);
    assert_eq!(out.pvalue_region, PValueRegion::LargeP);
    let out = p.conclude(4, None, (-0.5f64).to_bits());
    assert_eq!(out.pvalue_region, PValueRegion::LargeP);
    let out = p.conclude(4, None, (-19.5f64).to_bits());
    assert_eq!(out.pvalue_region, PValueRegion::Zero);
}

// ── p-value regions ───────────────────────────────────────────────────────

#[test]
fn pvalue_regions() {
    let r = |x: f64, reg| pvalue_region(x.to_bits(), reg);
    assert_eq!(r(3.0, Regression::C), PValueRegion::One);
    assert_eq!(r(2.74, Regression::C), PValueRegion::LargeP);
    assert_eq!(r(-20.0, Regression::C), PValueRegion::Zero);
    assert_eq!(r(-18.83, Regression::C), PValueRegion::SmallP);
    assert_eq!(r(-1.61, Regression::C), PValueRegion::SmallP);
    assert_eq!(r(-1.0, Regression::C), PValueRegion::LargeP);
    assert_eq!(r(f64::NAN, Regression::C), PValueRegion::LargeP);
    assert_eq!(r(1e300, Regression::N), PValueRegion::LargeP);
    assert_eq!(r(f64::INFINITY, Regression::N), PValueRegion::LargeP);
    assert_eq!(r(0.6, Regression::Ctt), PValueRegion::One);
    assert_eq!(r(0.6, Regression::Ct), PValueRegion::LargeP);
    assert_eq!(r(-3.0, Regression::Ct), PValueRegion::SmallP);
    assert_eq!(r(-17.0, Regression::Ctt), PValueRegion::SmallP);
    assert_eq!(r(-17.0, Regression::Ct), PValueRegion::Zero);
}

#[test]
fn pvalue_region_is_monotone() {
    let xs: Vec<f64> = (-400..=100).map(|i| i as f64 * 0.05).collect();
    let rank = |g| match g {
        PValueRegion::Zero => 0,
        PValueRegion::SmallP => 1,
        PValueRegion::LargeP => 2,
        PValueRegion::One => 3,
    };
    for reg in [Regression::C, Regression::Ct, Regression::Ctt, Regression::N] {
        let mut prev = 0;
        for &x in &xs {
            let k = rank(pvalue_region(x.to_bits(), reg));
            assert!(k >= prev, "{x} {reg:?}");
            prev = k;
        }
    }
}
