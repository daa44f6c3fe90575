//! ARIMA / SARIMA orders: options, order validation and the layout of the
//! differenced series, the parameter vector and the start-up window.
use vstd::prelude::*;

pub mod auto;

verus! {

/// Estimation method.
#[derive(Debug, Clone, Copy, PartialEq, Eq, Structural)]
pub enum ArimaMethod {
    /// Conditional Sum of Squares (default).
    Css,
    /// Exact Gaussian likelihood through a Kalman filter.
    Mle,
    /// CSS for starting values, then likelihood refinement.
    CssMle,
}

/// Order and configuration of an ARIMA(p, d, q)(P, D, Q)[m] fit.
#[derive(Debug, Clone, Copy)]
pub struct ArimaOpts {
    /// AR order, at most 10.
    pub p: u32,
    /// Differencing order, at most 2.
    pub d: u32,
    /// MA order, at most 10.
    pub q: u32,
    /// Seasonal AR order `P`; ignored when `seasonal_period == 0`.
    pub seasonal_p: u32,
    /// Seasonal differencing order `D`; ignored when `seasonal_period == 0`.
    pub seasonal_d: u32,
    /// Seasonal MA order `Q`; ignored when `seasonal_period == 0`.
    pub seasonal_q: u32,
    /// Seasonal period `m`; `0` means no seasonal terms.
    pub seasonal_period: u32,
    /// Include a constant (a drift when the series is differenced).
    pub include_constant: bool,
    pub method: ArimaMethod,
}

impl ArimaOpts {
    /// Non-seasonal ARIMA(p, d, q) with a constant, fitted by CSS.
    pub fn new(p: u32, d: u32, q: u32) -> (r: Self)
        ensures
            r.p == p,
            r.d == d,
            r.q == q,
            r.seasonal_p == 0,
            r.seasonal_d == 0,
            r.seasonal_q == 0,
            r.seasonal_period == 0,
            r.include_constant,
            r.method == ArimaMethod::Css,
    {
        ArimaOpts {
            p,
            d,
            q,
            seasonal_p: 0,
            seasonal_d: 0,
            seasonal_q: 0,
            seasonal_period: 0,
            include_constant: true,
            method: ArimaMethod::Css,
        }
    }

    /// Seasonal ARIMA(p, d, q)(P, D, Q)[m] with a constant, fitted by CSS.
    pub fn seasonal(p: u32, d: u32, q: u32, big_p: u32, big_d: u32, big_q: u32, m: u32) -> (r: Self)
        ensures
            r.p == p,
            r.d == d,
            r.q == q,
            r.seasonal_p == big_p,
            r.seasonal_d == big_d,
            r.seasonal_q == big_q,
            r.seasonal_period == m,
            r.include_constant,
            r.method == ArimaMethod::Css,
    {
        ArimaOpts {
            p,
            d,
            q,
            seasonal_p: big_p,
            seasonal_d: big_d,
            seasonal_q: big_q,
            seasonal_period: m,
            include_constant: true,
            method: ArimaMethod::Css,
        }
    }
}

/// Why an ARIMA fit was refused or failed.
#[derive(Debug, Clone, Copy, PartialEq, Eq)]
pub enum ArimaError {
    /// `p > 10`, `q > 10` or `d > 2`.
    InvalidOrder { p: u32, d: u32, q: u32 },
    /// The series (or an exogenous column) is shorter than required.
    SeriesTooShort { n: usize, min: u128, p: u32, d: u32, q: u32 },
    /// The series holds a non-finite value.
    NonFinite,
    /// The exogenous design matrix is singular.
    Singular,
    /// The optimiser did not converge within `iters` iterations.
    OptimizationFailed { iters: u64 },
}

/// Largest accepted `p` and `q`.
pub const MAX_ORDER: u32 = 10;

/// The orders are within the accepted range.
pub open spec fn orders_valid(opts: ArimaOpts) -> bool {
    opts.p <= MAX_ORDER && opts.q <= MAX_ORDER && opts.d <= 2
}

/// Reject orders outside `p <= 10`, `q <= 10`, `d <= 2`.
pub fn check_orders(opts: &ArimaOpts) -> (r: Result<(), ArimaError>)
    ensures
        r is Ok <==> orders_valid(*opts),
        r is Err ==> r == Err::<(), ArimaError>(ArimaError::InvalidOrder { p: opts.p, d: opts.d, q: opts.q }),
{
    if opts.p > MAX_ORDER || opts.q > MAX_ORDER || opts.d > 2 {
        Err(ArimaError::InvalidOrder { p: opts.p, d: opts.d, q: opts.q })
    } else {
        Ok(())
    }
}

/// Every exogenous column has the series' length `n`; otherwise the first
/// column that does not is reported, with `n` as the required length.
pub fn check_exog_lengths(n: usize, col_lens: &Vec<usize>, opts: &ArimaOpts) -> (r: Result<(), ArimaError>)
    ensures
        r is Ok <==> (forall|j: int| 0 <= j < col_lens.len() ==> col_lens[j] == n),
        r matches Err(e) ==> exists|j: int|
            0 <= j < col_lens.len() && col_lens[j] != n
            && (forall|i: int| 0 <= i < j ==> col_lens[i] == n)
            && e == (ArimaError::SeriesTooShort {
                n: col_lens[j],
                min: n as u128,
                p: opts.p,
                d: opts.d,
                q: opts.q,
            }),
{
    let mut j: usize = 0;
    while j < col_lens.len()
        invariant
            j <= col_lens.len(),
            forall|i: int| 0 <= i < j ==> col_lens[i] == n,
        decreases col_lens.len() - j,
    {
        if col_lens[j] != n {
            return Err(ArimaError::SeriesTooShort {
                n: col_lens[j],
                min: n as u128,
                p: opts.p,
                d: opts.d,
                q: opts.q,
            });
        }
        j = j + 1;
    }
    Ok(())
}

/// The model's structural sizes, before the series is looked at.
pub open spec fn seasonal_on(opts: ArimaOpts) -> bool {
    opts.seasonal_period > 0
}

pub open spec fn eff_big_p(opts: ArimaOpts) -> int {
    if seasonal_on(opts) { opts.seasonal_p as int } else { 0 }
}

pub open spec fn eff_big_d(opts: ArimaOpts) -> int {
    if seasonal_on(opts) { opts.seasonal_d as int } else { 0 }
}

pub open spec fn eff_big_q(opts: ArimaOpts) -> int {
    if seasonal_on(opts) { opts.seasonal_q as int } else { 0 }
}

/// Degree of the combined AR polynomial `p + P * m`.
pub open spec fn spec_ar_order(opts: ArimaOpts) -> int {
    opts.p + eff_big_p(opts) * opts.seasonal_period
}

/// Degree of the combined MA polynomial `q + Q * m`.
pub open spec fn spec_ma_order(opts: ArimaOpts) -> int {
    opts.q + eff_big_q(opts) * opts.seasonal_period
}

/// Number of lagged values the CSS recursion needs.
pub open spec fn spec_recursion_order(opts: ArimaOpts) -> int {
    if spec_ar_order(opts) >= spec_ma_order(opts) { spec_ar_order(opts) } else { spec_ma_order(opts) }
}

/// Observations consumed by differencing, `d + D * m`.
pub open spec fn spec_total_diff(opts: ArimaOpts) -> int {
    opts.d + eff_big_d(opts) * opts.seasonal_period
}

/// Shortest series an ARIMA fit accepts.
pub open spec fn spec_min_len(opts: ArimaOpts) -> int {
    spec_total_diff(opts) + spec_recursion_order(opts) + 2
}

/// The orders of the combined polynomials in terms of the options: with a
/// seasonal period `m > 0`, every seasonal AR (MA) order `P` (`Q`) adds `P*m`
/// (`Q*m`) lags and every seasonal difference `m` observations; without one
/// the seasonal orders add nothing. The recursion needs the larger of the
/// two polynomial orders, and a series is accepted from
/// `d + D*m + max(p + P*m, q + Q*m) + 2` observations on.
pub proof fn lemma_orders_from_options(opts: ArimaOpts)
    ensures
        opts.seasonal_period > 0 ==> {
            &&& spec_ar_order(opts) == opts.p + opts.seasonal_p * opts.seasonal_period
            &&& spec_ma_order(opts) == opts.q + opts.seasonal_q * opts.seasonal_period
            &&& spec_total_diff(opts) == opts.d + opts.seasonal_d * opts.seasonal_period
            &&& spec_ar_order(opts) >= opts.seasonal_p * opts.seasonal_period
            &&& spec_ma_order(opts) >= opts.seasonal_q * opts.seasonal_period
        },
        opts.seasonal_period == 0 ==> spec_ar_order(opts) == opts.p && spec_ma_order(opts) == opts.q
            && spec_total_diff(opts) == opts.d,
        spec_recursion_order(opts) >= spec_ar_order(opts),
        spec_recursion_order(opts) >= spec_ma_order(opts),
        spec_recursion_order(opts) == spec_ar_order(opts) || spec_recursion_order(opts) == spec_ma_order(opts),
        spec_min_len(opts) == spec_total_diff(opts) + spec_recursion_order(opts) + 2,
{
    if opts.seasonal_period > 0 {
        assert(opts.p + opts.seasonal_p * opts.seasonal_period >= opts.seasonal_p * opts.seasonal_period);
    }
}

/// Sizes of one accepted ARIMA fit on a series of length `n`.
#[derive(Debug, Clone, Copy)]
pub struct ArimaLayout {
    pub n: usize,
    pub p: usize,
    pub d: usize,
    pub q: usize,
    /// Effective seasonal orders (zero when the model is non-seasonal).
    pub big_p: usize,
    pub big_d: usize,
    pub big_q: usize,
    pub m: usize,
    pub ar_order: usize,
    pub ma_order: usize,
    pub recursion_order: usize,
    pub total_diff: usize,
    /// Length of the fully differenced series, `n - total_diff`.
    pub n_diffed: usize,
    /// Observations entering the CSS objective, `n_diffed - recursion_order`.
    pub n_eff: usize,
    /// Leading entries of `fitted` / `residuals` with no model output.
    pub warmup: usize,
    /// Free ARMA parameters `p + P + q + Q` seen by the optimiser.
    pub n_arma: u64,
    /// Estimated parameters counted by the information criteria:
    /// ARMA parameters, the innovation variance and the constant if any.
    pub n_estimated: u64,
    /// Iteration cap of each optimiser run, `2000 + 200 * n_arma`.
    pub max_optimizer_iters: u64,
    /// Differenced values and innovations kept for forecasting,
    /// `max(recursion_order, 1)`: enough for both polynomials, and
    /// available in the differenced series.
    pub tail_len: usize,
}

/// Compute the layout of a fit of `opts` on `n` observations, or report the
/// series as too short when `n < d + D*m + max(p + P*m, q + Q*m) + 2`.
pub fn arima_layout(opts: &ArimaOpts, n: usize) -> (r: Result<ArimaLayout, ArimaError>)
    ensures
        r is Err <==> n < spec_min_len(*opts),
        r is Err ==> r == Err::<ArimaLayout, ArimaError>(ArimaError::SeriesTooShort {
            n,
            min: spec_min_len(*opts) as u128,
            p: opts.p,
            d: opts.d,
            q: opts.q,
        }),
        opts.seasonal_period > 0 ==> (r is Err <==> n < opts.d + opts.seasonal_d * opts.seasonal_period
            + (if opts.p + opts.seasonal_p * opts.seasonal_period >= opts.q + opts.seasonal_q * opts.seasonal_period {
                opts.p + opts.seasonal_p * opts.seasonal_period
            } else {
                opts.q + opts.seasonal_q * opts.seasonal_period
            }) + 2),
        opts.seasonal_period == 0 ==> (r is Err <==> n < opts.d + (if opts.p >= opts.q { opts.p } else { opts.q }) + 2),
        r matches Ok(l) ==> {
            &&& opts.seasonal_period > 0 ==> {
                &&& l.ar_order == opts.p + opts.seasonal_p * opts.seasonal_period
                &&& l.ma_order == opts.q + opts.seasonal_q * opts.seasonal_period
                &&& l.total_diff == opts.d + opts.seasonal_d * opts.seasonal_period
            }
            &&& opts.seasonal_period == 0 ==> l.ar_order == opts.p && l.ma_order == opts.q && l.total_diff == opts.d
            &&& l.n_arma == opts.p + opts.q
                + (if opts.seasonal_period > 0 { opts.seasonal_p + opts.seasonal_q } else { 0int })
            &&& l.n_diffed + l.total_diff == n
            &&& l.tail_len >= 1 && l.tail_len >= l.recursion_order
            &&& (l.tail_len == l.recursion_order || l.tail_len == 1)
            &&& l.recursion_order >= l.ar_order && l.recursion_order >= l.ma_order
            &&& (l.recursion_order == l.ar_order || l.recursion_order == l.ma_order)
            &&& l.n_eff + l.recursion_order + l.total_diff == n
            &&& l.warmup == l.total_diff + l.recursion_order
            &&& l.n == n
            &&& l.p == opts.p && l.d == opts.d && l.q == opts.q
            &&& l.big_p == eff_big_p(*opts) && l.big_d == eff_big_d(*opts) && l.big_q == eff_big_q(*opts)
            &&& l.m == opts.seasonal_period
            &&& l.ar_order == spec_ar_order(*opts)
            &&& l.ma_order == spec_ma_order(*opts)
            &&& l.recursion_order == spec_recursion_order(*opts)
            &&& l.total_diff == spec_total_diff(*opts)
            &&& l.n_diffed == n - spec_total_diff(*opts)
            &&& l.n_eff == n - spec_total_diff(*opts) - spec_recursion_order(*opts)
            &&& l.n_eff >= 2
            &&& l.warmup == spec_total_diff(*opts) + spec_recursion_order(*opts)
            &&& l.n_arma == opts.p + opts.q + eff_big_p(*opts) + eff_big_q(*opts)
            &&& l.n_estimated == l.n_arma + 1 + (if opts.include_constant { 1int } else { 0 })
            &&& l.max_optimizer_iters == 2000 + 200 * l.n_arma
            &&& l.tail_len == (if spec_recursion_order(*opts) >= 1 { spec_recursion_order(*opts) } else { 1 })
            &&& l.ar_order <= l.tail_len && l.ma_order <= l.tail_len && l.tail_len <= l.n_diffed
        },
{
    let seasonal = opts.seasonal_period > 0;
    let bp: u128 = if seasonal { opts.seasonal_p as u128 } else { 0 };
    let bd: u128 = if seasonal { opts.seasonal_d as u128 } else { 0 };
    let bq: u128 = if seasonal { opts.seasonal_q as u128 } else { 0 };
    let m: u128 = opts.seasonal_period as u128;
    proof {
        assert(bp * m <= 0xffff_ffffu128 * 0xffff_ffffu128) by (nonlinear_arith)
            requires bp <= 0xffff_ffff, m <= 0xffff_ffff;
        assert(bd * m <= 0xffff_ffffu128 * 0xffff_ffffu128) by (nonlinear_arith)
            requires bd <= 0xffff_ffff, m <= 0xffff_ffff;
        assert(bq * m <= 0xffff_ffffu128 * 0xffff_ffffu128) by (nonlinear_arith)
            requires bq <= 0xffff_ffff, m <= 0xffff_ffff;
    }
    let ar: u128 = opts.p as u128 + bp * m;
    let ma: u128 = opts.q as u128 + bq * m;
    let rec: u128 = if ar >= ma { ar } else { ma };
    let td: u128 = opts.d as u128 + bd * m;
    let min_n: u128 = td + rec + 2;
    if (n as u128) < min_n {
        return Err(ArimaError::SeriesTooShort { n, min: min_n, p: opts.p, d: opts.d, q: opts.q });
    }
    let n_arma: u64 = (opts.p as u128 + opts.q as u128 + bp + bq) as u64;
    let n_estimated: u64 = n_arma + 1 + if opts.include_constant { 1 } else { 0 };
    Ok(ArimaLayout {
        n,
        p: opts.p as usize,
        d: opts.d as usize,
        q: opts.q as usize,
        big_p: bp as usize,
        big_d: bd as usize,
        big_q: bq as usize,
        m: opts.seasonal_period as usize,
        ar_order: ar as usize,
        ma_order: ma as usize,
        recursion_order: rec as usize,
        total_diff: td as usize,
        n_diffed: (n as u128 - td) as usize,
        n_eff: (n as u128 - td - rec) as usize,
        warmup: (td + rec) as usize,
        n_arma,
        n_estimated,
        max_optimizer_iters: 2000 + 200 * n_arma,
        tail_len: if rec >= 1 { rec as usize } else { 1 },
    })
}

} // verus!
