use rust_stats::tsa::arima::{check_exog_lengths, check_orders};
use rust_stats::{arima_layout, ArimaError, ArimaMethod, ArimaOpts};

#[test]
fn arima_opts_constructors() {
    let o = ArimaOpts::new(1, 1, 2);
    assert_eq!((o.p, o.d, o.q), (1, 1, 2));
    assert_eq!((o.seasonal_p, o.seasonal_d, o.seasonal_q, o.seasonal_period), (0, 0, 0, 0));
    assert!(o.include_constant);
    assert_eq!(o.method, ArimaMethod::Css);
    let s = ArimaOpts::seasonal(0, 1, 1, 0, 1, 1, 12);
    assert_eq!((s.p, s.d, s.q, s.seasonal_p, s.seasonal_d, s.seasonal_q, s.seasonal_period), (0, 1, 1, 0, 1, 1, 12));
    assert!(s.include_constant);
    assert_eq!(s.method, ArimaMethod::Css);
}

#[test]
fn arima_rejects_invalid_order() {
    assert_eq!(
        check_orders(&ArimaOpts::new(11, 0, 0)).unwrap_err(),
        ArimaError::InvalidOrder { p: 11, d: 0, q: 0 }
    );
    assert_eq!(
        check_orders(&ArimaOpts::new(0, 3, 0)).unwrap_err(),
        ArimaError::InvalidOrder { p: 0, d: 3, q: 0 }
    );
    assert_eq!(
        check_orders(&ArimaOpts::new(1, 0, 11)).unwrap_err(),
        ArimaError::InvalidOrder { p: 1, d: 0, q: 11 }
    );
    assert!(check_orders(&ArimaOpts::new(10, 2, 10)).is_ok());
}

#[test]
fn arima_rejects_mismatched_exog() {
    let o = ArimaOpts::new(1, 0, 0);
    assert!(check_exog_lengths(50, &vec![50, 50], &o).is_ok());
    assert_eq!(
        check_exog_lengths(50, &vec![50, 40, 30], &o).unwrap_err(),
        ArimaError::SeriesTooShort { n: 40, min: 50, p: 1, d: 0, q: 0 }
    );
}

#[test]
fn arima_layout_non_seasonal() {
    let l = arima_layout(&ArimaOpts::new(2, 1, 1), 100).unwrap();
    assert_eq!((l.ar_order, l.ma_order, l.recursion_order, l.total_diff), (2, 1, 2, 1));
    assert_eq!((l.n_diffed, l.n_eff, l.warmup), (99, 97, 3));
    assert_eq!((l.n_arma, l.n_estimated, l.tail_len), (3, 5, 2));
    assert_eq!(l.max_optimizer_iters, 2600);
    let l = arima_layout(&ArimaOpts::new(0, 1, 0), 10).unwrap();
    assert_eq!((l.recursion_order, l.tail_len, l.n_estimated), (0, 1, 2));
}

#[test]
fn arima_layout_seasonal() {
    let o = ArimaOpts::seasonal(1, 1, 1, 1, 1, 1, 12);
    let l = arima_layout(&o, 144).unwrap();
    assert_eq!((l.ar_order, l.ma_order, l.recursion_order, l.total_diff), (13, 13, 13, 13));
    assert_eq!((l.n_diffed, l.n_eff, l.warmup, l.n_arma), (131, 118, 26, 4));
    // The seasonal orders are ignored without a seasonal period.
    let o = ArimaOpts { seasonal_period: 0, ..ArimaOpts::seasonal(1, 0, 0, 2, 1, 2, 12) };
    let l = arima_layout(&o, 20).unwrap();
    assert_eq!((l.big_p, l.big_d, l.big_q, l.ar_order, l.total_diff), (0, 0, 0, 1, 0));
}

#[test]
fn arima_layout_too_short() {
    // d + max(p, q) + 2 = 1 + 2 + 2 = 5.
    assert_eq!(
        arima_layout(&ArimaOpts::new(2, 1, 1), 4).unwrap_err(),
        ArimaError::SeriesTooShort { n: 4, min: 5, p: 2, d: 1, q: 1 }
    );
    assert!(arima_layout(&ArimaOpts::new(2, 1, 1), 5).is_ok());
    let o = ArimaOpts::seasonal(0, 1, 1, 0, 1, 1, 12);
    assert_eq!(
        arima_layout(&o, 20).unwrap_err(),
        ArimaError::SeriesTooShort { n: 20, min: 28, p: 0, d: 1, q: 1 }
    );
}
