use rust_stats::tsa::arima::auto::is_admissible;
use rust_stats::{neighbours_of, ArimaMethod, AutoArimaOpts, AutoSearch, Key, SearchAction};

fn key(p: u32, q: u32, big_p: u32, big_q: u32, c: bool) -> Key {
    Key { p, d: 0, q, big_p, big_d: 0, big_q, include_constant: c }
}

#[test]
fn auto_arima_opts_defaults() {
    let o = AutoArimaOpts::new();
    assert_eq!((o.seasonal_period, o.max_p, o.max_d, o.max_q), (0, 5, 2, 5));
    assert_eq!((o.max_seasonal_p, o.max_seasonal_d, o.max_seasonal_q), (0, 0, 0));
    assert_eq!(o.method, ArimaMethod::Css);
    assert_eq!(o.include_constant, None);
    assert_eq!(o.max_iter, 50);
    let s = AutoArimaOpts::seasonal(12);
    assert_eq!((s.seasonal_period, s.max_seasonal_p, s.max_seasonal_d, s.max_seasonal_q), (12, 2, 1, 2));
    let d = AutoArimaOpts::default();
    assert_eq!((d.seasonal_period, d.max_p, d.max_iter), (0, 5, 50));
}

#[test]
fn neighbours_non_seasonal() {
    let o = AutoArimaOpts::new();
    let n = neighbours_of(key(2, 2, 0, 0, true), 0, &o);
    assert_eq!(
        n,
        vec![key(3, 2, 0, 0, true), key(1, 2, 0, 0, true), key(2, 3, 0, 0, true), key(2, 1, 0, 0, true), key(2, 2, 0, 0, false)]
    );
    // At the bounds only the inward moves remain; a pinned constant is kept.
    let o = AutoArimaOpts { include_constant: Some(true), max_p: 2, ..AutoArimaOpts::new() };
    let n = neighbours_of(key(2, 0, 0, 0, true), 0, &o);
    assert_eq!(n, vec![key(1, 0, 0, 0, true), key(2, 1, 0, 0, true)]);
}

#[test]
fn neighbours_seasonal() {
    let o = AutoArimaOpts::seasonal(12);
    let n = neighbours_of(key(1, 1, 1, 0, false), 12, &o);
    assert_eq!(
        n,
        vec![
            key(2, 1, 1, 0, false),
            key(0, 1, 1, 0, false),
            key(1, 2, 1, 0, false),
            key(1, 0, 1, 0, false),
            key(1, 1, 2, 0, false),
            key(1, 1, 0, 0, false),
            key(1, 1, 1, 1, false),
            key(1, 1, 1, 0, true),
        ]
    );
}

#[test]
fn admissibility() {
    assert!(is_admissible(key(5, 5, 1, 1, true)));
    assert!(!is_admissible(key(5, 0, 2, 0, true)));
    assert!(!is_admissible(Key { p: 0, d: 1, q: 0, big_p: 0, big_d: 1, big_q: 0, include_constant: true }));
    assert!(is_admissible(Key { p: 0, d: 1, q: 0, big_p: 0, big_d: 1, big_q: 0, include_constant: false }));
}

/// Drive the search with a criterion given by `score` (None: the fit failed).
fn drive(opts: AutoArimaOpts, d: u32, big_d: u32, score: impl Fn(&Key) -> Option<f64>) -> (Option<Key>, Vec<Key>) {
    let mut s = AutoSearch::new(opts, d, big_d);
    let mut best: Option<f64> = None;
    let mut base = f64::INFINITY;
    let mut fitted = Vec::new();
    loop {
        match s.next_action() {
            SearchAction::Fit(k) => {
                let o = s.candidate_opts(k);
                assert_eq!((o.p, o.q, o.d), (k.p, k.q, k.d));
                fitted.push(k);
                let nb = match (score(&k), best) {
                    (Some(v), Some(b)) if v < b => { best = Some(v); true }
                    (Some(v), None) => { best = Some(v); true }
                    _ => false,
                };
                s.report_fit(nb);
            }
            SearchAction::BeginSweep => base = best.unwrap(),
            SearchAction::EndSweep => s.report_sweep(best.unwrap() < base - 1e-9),
            SearchAction::Finish(k) => return (Some(k), fitted),
            SearchAction::Fail => return (None, fitted),
        }
    }
}

#[test]
fn search_walks_to_the_minimum() {
    // Criterion minimised at ARIMA(3, 0, 1) with a constant.
    let score = |k: &Key| {
        Some(((k.p as f64) - 3.0).powi(2) + ((k.q as f64) - 1.0).powi(2) + if k.include_constant { 0.0 } else { 0.5 })
    };
    let (best, fitted) = drive(AutoArimaOpts::new(), 0, 0, score);
    assert_eq!(best, Some(key(3, 1, 0, 0, true)));
    // Never the same model twice.
    for (i, a) in fitted.iter().enumerate() {
        assert!(!fitted[i + 1..].contains(a));
    }
    // The slate comes first.
    assert_eq!(&fitted[..4], &[key(2, 2, 0, 0, true), key(0, 0, 0, 0, true), key(1, 0, 0, 0, true), key(0, 1, 0, 0, true)]);
}

#[test]
fn search_fails_when_nothing_fits() {
    let (best, fitted) = drive(AutoArimaOpts::new(), 0, 0, |_| None);
    assert_eq!(best, None);
    // The four slate models; the ARIMA(0, d, 0) fallback was already tried.
    assert_eq!(fitted.len(), 4);
}

#[test]
fn search_skips_constant_with_two_differences() {
    // d + D = 2: the constant defaults to off and constant models are never fitted.
    let opts = AutoArimaOpts::seasonal(12);
    let (best, fitted) = drive(opts, 1, 1, |k| Some((k.p + k.q + k.big_p + k.big_q) as f64));
    assert!(fitted.iter().all(|k| !k.include_constant && k.d == 1 && k.big_d == 1));
    assert_eq!(best, Some(Key { p: 0, d: 1, q: 0, big_p: 0, big_d: 1, big_q: 0, include_constant: false }));
}

#[test]
fn search_respects_max_iter() {
    let opts = AutoArimaOpts { max_iter: 0, ..AutoArimaOpts::new() };
    let (best, fitted) = drive(opts, 0, 0, |k| Some(10.0 - k.p as f64));
    assert_eq!(fitted.len(), 4);
    assert_eq!(best, Some(key(2, 2, 0, 0, true)));
}

#[test]
fn search_keeps_a_pinned_constant_and_admissible_orders() {
    let opts = AutoArimaOpts { include_constant: Some(false), max_p: 6, max_q: 6, ..AutoArimaOpts::seasonal(4) };
    // Larger models score better, pushing the search toward the order caps.
    let (best, fitted) = drive(opts, 0, 1, |k| Some(-((k.p + k.q + k.big_p + k.big_q) as f64)));
    assert!(!fitted.is_empty());
    for k in &fitted {
        assert!(!k.include_constant);
        assert!(is_admissible(*k));
        assert!(k.p + k.big_p <= 6 && k.q + k.big_q <= 6);
        assert_eq!((k.d, k.big_d), (0, 1));
        assert!(k.big_p <= 2 && k.big_q <= 2);
    }
    let b = best.unwrap();
    assert!(fitted.contains(&b));
}

#[test]
fn search_repeats_an_unanswered_request() {
    let mut s = AutoSearch::new(AutoArimaOpts::new(), 1, 0);
    let a = s.next_action();
    assert_eq!(a, s.next_action());
    assert_eq!(a, SearchAction::Fit(Key { p: 2, d: 1, q: 2, big_p: 0, big_d: 0, big_q: 0, include_constant: true }));
    s.report_fit(true);
    assert_eq!(s.best(), Some(Key { p: 2, d: 1, q: 2, big_p: 0, big_d: 0, big_q: 0, include_constant: true }));
}
