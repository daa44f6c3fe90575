use rust_stats::tsa::diagnostics::{ljung_box_df, ljung_box_lags_used};
use rust_stats::{kpss_lag, DiffAction, DiffSearch, KpssRegression};

#[test]
fn kpss_lag_schwert_rule() {
    // floor(12 * (n / 100)^(1/4)).
    assert_eq!(kpss_lag(100), 12);
    assert_eq!(kpss_lag(500), 17);
    assert_eq!(kpss_lag(1600), 24);
    assert_eq!(kpss_lag(1599), 23);
    assert_eq!(kpss_lag(10), 6);
    // At least one lag, at most n - 1.
    assert_eq!(kpss_lag(3), 2);
    assert_eq!(kpss_lag(2), 1);
    assert_eq!(kpss_lag(1), 0);
    assert_eq!(kpss_lag(0), 0);
    assert_ne!(KpssRegression::Constant, KpssRegression::ConstantTrend);
}

fn run(mut s: DiffSearch, answers: &[bool]) -> (u32, usize) {
    let mut tests = 0;
    loop {
        match s.next() {
            DiffAction::Stop(d) => return (d, tests),
            DiffAction::Test => {
                let a = answers[tests];
                tests += 1;
                s.report(a);
            }
        }
    }
}

#[test]
fn ndiffs_search_stops_when_stationary() {
    assert_eq!(run(DiffSearch::ndiffs(500, 2), &[true, false]), (1, 2));
    assert_eq!(run(DiffSearch::ndiffs(500, 2), &[false]), (0, 1));
    assert_eq!(run(DiffSearch::ndiffs(500, 2), &[true, true]), (2, 2));
    // Too short to test at all.
    assert_eq!(run(DiffSearch::ndiffs(7, 2), &[]), (0, 0));
    // 8 values: one test, then 7 remain.
    assert_eq!(run(DiffSearch::ndiffs(8, 2), &[true]), (1, 1));
}

#[test]
fn nsdiffs_search() {
    assert_eq!(run(DiffSearch::nsdiffs(240, 12, 1), &[true]), (1, 1));
    assert_eq!(run(DiffSearch::nsdiffs(240, 12, 1), &[false]), (0, 1));
    assert_eq!(run(DiffSearch::nsdiffs(240, 1, 1), &[]), (0, 0));
    assert_eq!(run(DiffSearch::nsdiffs(240, 12, 0), &[]), (0, 0));
    // 30 values, period 12: test at 30, then 18 remain (< 24).
    assert_eq!(run(DiffSearch::nsdiffs(30, 12, 2), &[true]), (1, 1));
}

#[test]
fn ljung_box_degrees_of_freedom() {
    assert_eq!(ljung_box_df(10, 0), 10);
    assert_eq!(ljung_box_df(10, 3), 7);
    assert_eq!(ljung_box_df(10, 10), 1);
    assert_eq!(ljung_box_df(2, 5), 1);
    assert_eq!(ljung_box_lags_used(10, 500), 10);
    assert_eq!(ljung_box_lags_used(10, 5), 4);
    assert_eq!(ljung_box_lags_used(10, 0), 0);
}
