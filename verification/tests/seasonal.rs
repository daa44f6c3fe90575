use rust_stats::tsa::seasonal::{
    centered_band, default_trend_window, extended_slot, jump_fit_points, phase_counts,
    subseries_len, subseries_span, valid_ma_len,
};
use rust_stats::{
    decompose_plan, stl_plan, DecomposeMode, Missing, SeasonalDecomposeError, SeasonalDecomposeOpts,
    StlError, StlOpts,
};

#[test]
fn stl_opts_defaults() {
    let o = StlOpts::new(12);
    assert_eq!(o.period, 12);
    assert_eq!(o.seasonal_window, 7);
    assert_eq!(o.trend_window, None);
    assert_eq!(o.inner_iters, 2);
    assert_eq!(o.outer_iters, 0);
    assert_eq!(o.mode, DecomposeMode::Additive);
    assert_eq!((o.seasonal_jump, o.trend_jump, o.low_pass_jump), (1, 1, 1));
    assert_eq!(o.missing, Missing::Error);
}

#[test]
fn seasonal_decompose_opts_defaults() {
    let o = SeasonalDecomposeOpts::new(4);
    assert_eq!(o.period, 4);
    assert_eq!(o.mode, DecomposeMode::Additive);
    assert_eq!(o.missing, Missing::Error);
}

#[test]
fn stl_plan_validation_paths() {
    assert_eq!(stl_plan(&StlOpts::new(1), 24, true).unwrap_err(), StlError::InvalidPeriod(1));
    let o = StlOpts { seasonal_window: 8, ..StlOpts::new(4) };
    assert_eq!(stl_plan(&o, 24, true).unwrap_err(), StlError::InvalidSeasonalWindow(8));
    let o = StlOpts { seasonal_window: 5, ..StlOpts::new(4) };
    assert_eq!(stl_plan(&o, 24, true).unwrap_err(), StlError::InvalidSeasonalWindow(5));
    let o = StlOpts { trend_window: Some(10), ..StlOpts::new(4) };
    assert_eq!(stl_plan(&o, 24, true).unwrap_err(), StlError::InvalidTrendWindow(10));
    let o = StlOpts { inner_iters: 0, ..StlOpts::new(4) };
    assert_eq!(stl_plan(&o, 24, true).unwrap_err(), StlError::InvalidInnerIters);
    assert_eq!(
        stl_plan(&StlOpts::new(4), 3, true).unwrap_err(),
        StlError::SeriesTooShort { n: 3, min: 8 }
    );
    assert_eq!(
        stl_plan(&StlOpts::new(4), 0, false).unwrap_err(),
        StlError::SeriesTooShort { n: 0, min: 8 }
    );
    assert_eq!(stl_plan(&StlOpts::new(4), 3, false).unwrap_err(), StlError::NonFinite);
}

#[test]
fn stl_plan_zero_jumps() {
    let e = stl_plan(&StlOpts { seasonal_jump: 0, ..StlOpts::new(4) }, 48, true).unwrap_err();
    assert!(matches!(e, StlError::InvalidJump { which: "seasonal" }));
    let e = stl_plan(&StlOpts { trend_jump: 0, ..StlOpts::new(4) }, 48, true).unwrap_err();
    assert!(matches!(e, StlError::InvalidJump { which: "trend" }));
    let e = stl_plan(&StlOpts { low_pass_jump: 0, ..StlOpts::new(4) }, 48, true).unwrap_err();
    assert!(matches!(e, StlError::InvalidJump { which: "low_pass" }));
}

#[test]
fn stl_plan_derived_windows() {
    let p = stl_plan(&StlOpts::new(12), 144, true).unwrap();
    assert_eq!(p.period, 12);
    assert_eq!(p.low_pass_window, 13);
    // 1.5 * 12 / (1 - 1.5 / 7) = 22.9..., smallest odd >= that is 23.
    assert_eq!(p.trend_window, 23);
    assert_eq!(p.inner_iters, 2);
    assert!(!p.multiplicative);
    let p = stl_plan(&StlOpts { mode: DecomposeMode::Multiplicative, ..StlOpts::new(4) }, 24, true).unwrap();
    assert_eq!(p.low_pass_window, 5);
    // 1.5 * 4 / (1 - 1.5 / 7) = 7.63..., so 9.
    assert_eq!(p.trend_window, 9);
    assert!(p.multiplicative);
    let p = stl_plan(&StlOpts { trend_window: Some(15), period: 5, ..StlOpts::new(5) }, 10, true).unwrap();
    assert_eq!(p.trend_window, 15);
    assert_eq!(p.low_pass_window, 5);
}

#[test]
fn default_trend_window_exact_odd_boundary() {
    // 3 * 11 * 7 / (2 * 7 - 3) = 21 exactly: 21 is odd, so it is the window.
    assert_eq!(default_trend_window(11, 7), 21);
    // 3 * 2 * 7 / 11 = 3.8..., so 5.
    assert_eq!(default_trend_window(2, 7), 5);
    // 3 * 24 * 13 / 23 = 40.7..., so 41.
    assert_eq!(default_trend_window(24, 13), 41);
}

#[test]
fn decompose_plan_validation_paths() {
    assert_eq!(
        decompose_plan(&SeasonalDecomposeOpts::new(1), 24, true).unwrap_err(),
        SeasonalDecomposeError::InvalidPeriod(1)
    );
    assert_eq!(
        decompose_plan(&SeasonalDecomposeOpts::new(4), 3, true).unwrap_err(),
        SeasonalDecomposeError::SeriesTooShort { n: 3, min: 8 }
    );
    assert_eq!(
        decompose_plan(&SeasonalDecomposeOpts::new(4), 24, false).unwrap_err(),
        SeasonalDecomposeError::NonFinite
    );
    let p = decompose_plan(&SeasonalDecomposeOpts::new(4), 24, true).unwrap();
    assert_eq!((p.n, p.period, p.multiplicative), (24, 4, false));
}

#[test]
fn centered_band_edges() {
    assert_eq!(centered_band(144, 12), (6, 138));
    assert_eq!(centered_band(10, 5), (2, 8));
    assert_eq!(centered_band(3, 5), (0, 0));
    assert_eq!(centered_band(3, 0), (0, 0));
}

#[test]
fn phase_counts_cover_every_phase() {
    // n = 24, period = 4: band [2, 22) holds 20 positions, 5 per phase.
    assert_eq!(phase_counts(24, 4), vec![5, 5, 5, 5]);
    // n = 8, period = 3 (odd): band [1, 7): phases 1,2,0,1,2,0.
    assert_eq!(phase_counts(8, 3), vec![2, 2, 2]);
    // n = 9, period = 4: band [2, 7): positions 2,3,4,5,6.
    assert_eq!(phase_counts(9, 4), vec![1, 1, 2, 1]);
}

#[test]
fn subseries_lengths() {
    assert_eq!(subseries_len(10, 4, 0), 3);
    assert_eq!(subseries_len(10, 4, 1), 3);
    assert_eq!(subseries_len(10, 4, 2), 2);
    assert_eq!(subseries_len(10, 4, 3), 2);
    assert_eq!(subseries_len(2, 4, 3), 0);
    assert_eq!(subseries_span(7, 1, 12), 7);
    assert_eq!(subseries_span(7, 1, 5), 5);
    assert_eq!(subseries_span(1, 1, 12), 3);
}

#[test]
fn jump_points() {
    assert_eq!(jump_fit_points(10, 3), vec![0, 3, 6, 9]);
    assert_eq!(jump_fit_points(11, 3), vec![0, 3, 6, 9, 10]);
    assert_eq!(jump_fit_points(1, 5), vec![0]);
    assert_eq!(jump_fit_points(5, 1), vec![0, 1, 2, 3, 4]);
    assert_eq!(jump_fit_points(7, 10), vec![0, 6]);
}

#[test]
fn extended_slots_fill_the_extended_series() {
    let (n, period) = (10usize, 4usize);
    let mut hit = vec![0u32; n + 2 * period];
    for phase in 0..period {
        let sub = subseries_len(n, period, phase);
        for t in 0..=sub + 1 {
            hit[extended_slot(n, period, phase, t)] += 1;
        }
    }
    assert!(hit.iter().all(|&h| h == 1), "{hit:?}");
}

#[test]
fn low_pass_returns_one_value_per_observation() {
    for (n, period) in [(24usize, 4usize), (144, 12), (7, 3), (10, 5)] {
        let l1 = valid_ma_len(n + 2 * period, period);
        let l2 = valid_ma_len(l1, period);
        assert_eq!(valid_ma_len(l2, 3), n);
    }
    assert_eq!(valid_ma_len(2, 3), 0);
    assert_eq!(valid_ma_len(5, 0), 0);
}
