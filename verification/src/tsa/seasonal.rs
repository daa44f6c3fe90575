//! Seasonal-trend decomposition: options, parameter validation and the
//! index bookkeeping shared by STL and the classical moving-average
//! decomposition.
use vstd::prelude::*;

verus! {

/// How the components combine into the series.
#[derive(Debug, Clone, Copy, PartialEq, Eq, Structural)]
pub enum DecomposeMode {
    Additive,
    Multiplicative,
}

/// Handling of non-finite input values.
#[derive(Debug, Clone, Copy, PartialEq, Eq, Structural)]
pub enum Missing {
    /// Reject a series holding any non-finite value.
    Error,
    /// Fill non-finite values by linear interpolation; the residual is
    /// reported as missing at the filled positions.
    Interpolate,
}

/// Options for STL. `StlOpts::new(period)` gives Cleveland's defaults.
#[derive(Debug, Clone, Copy)]
pub struct StlOpts {
    pub period: u32,
    /// LOESS span (in points) for cycle-subseries smoothing; odd and >= 7.
    pub seasonal_window: u32,
    /// LOESS span for the trend smoother. `None` selects the smallest odd
    /// integer >= `1.5 * period / (1 - 1.5 / seasonal_window)`.
    pub trend_window: Option<u32>,
    /// Number of inner-loop iterations (at least 1).
    pub inner_iters: u32,
    /// Number of robust outer-loop iterations; `0` is the non-robust fit.
    pub outer_iters: u32,
    pub mode: DecomposeMode,
    /// Fit the cycle-subseries LOESS at every `seasonal_jump`-th point; >= 1.
    pub seasonal_jump: u32,
    /// Jump for the trend LOESS; >= 1.
    pub trend_jump: u32,
    /// Jump for the low-pass LOESS; >= 1.
    pub low_pass_jump: u32,
    pub missing: Missing,
}

impl StlOpts {
    /// Cleveland defaults for the given period.
    pub fn new(period: u32) -> (r: Self)
        ensures
            r.period == period,
            r.seasonal_window == 7,
            r.trend_window is None,
            r.inner_iters == 2,
            r.outer_iters == 0,
            r.mode == DecomposeMode::Additive,
            r.seasonal_jump == 1,
            r.trend_jump == 1,
            r.low_pass_jump == 1,
            r.missing == Missing::Error,
    {
        StlOpts {
            period,
            seasonal_window: 7,
            trend_window: None,
            inner_iters: 2,
            outer_iters: 0,
            mode: DecomposeMode::Additive,
            seasonal_jump: 1,
            trend_jump: 1,
            low_pass_jump: 1,
            missing: Missing::Error,
        }
    }
}

/// Options for the classical moving-average decomposition.
#[derive(Debug, Clone, Copy)]
pub struct SeasonalDecomposeOpts {
    pub period: u32,
    pub mode: DecomposeMode,
    pub missing: Missing,
}

impl SeasonalDecomposeOpts {
    /// Additive decomposition of the given period, rejecting missing values.
    pub fn new(period: u32) -> (r: Self)
        ensures
            r.period == period,
            r.mode == DecomposeMode::Additive,
            r.missing == Missing::Error,
    {
        SeasonalDecomposeOpts { period, mode: DecomposeMode::Additive, missing: Missing::Error }
    }
}


/// Why STL rejected its input.
#[derive(Debug, Clone, Copy, PartialEq, Eq)]
pub enum StlError {
    /// `period < 2`.
    InvalidPeriod(u32),
    /// The seasonal window is even or below 7.
    InvalidSeasonalWindow(u32),
    /// An explicit trend window is even.
    InvalidTrendWindow(u32),
    /// `inner_iters == 0`.
    InvalidInnerIters,
    /// A jump parameter is zero; `which` names it.
    InvalidJump { which: &'static str },
    /// Fewer than `2 * period` observations.
    SeriesTooShort { n: usize, min: u64 },
    /// A non-finite value that could not be (or was not to be) filled.
    NonFinite,
}

/// The validated, integer-valued parameters of one STL run.
#[derive(Debug, Clone, Copy)]
pub struct StlPlan {
    pub n: usize,
    pub period: usize,
    /// Cycle-subseries LOESS span.
    pub seasonal_window: usize,
    /// Low-pass LOESS span: the smallest odd integer >= period.
    pub low_pass_window: usize,
    /// Trend LOESS span.
    pub trend_window: u64,
    pub inner_iters: usize,
    pub outer_iters: usize,
    pub seasonal_jump: usize,
    pub trend_jump: usize,
    pub low_pass_jump: usize,
    pub multiplicative: bool,
}

/// `t` is the smallest odd integer with `t >= 1.5 * period / (1 - 1.5 / ns)`,
/// that is `t * (2 * ns - 3) >= 3 * period * ns`.
pub open spec fn is_default_trend_window(t: int, period: int, ns: int) -> bool {
    &&& t % 2 == 1
    &&& t * (2 * ns - 3) >= 3 * period * ns
    &&& (t - 2) * (2 * ns - 3) < 3 * period * ns
}

/// The first reason, in STL's order of checks, for which the options are
/// rejected, before the series itself is looked at.
pub open spec fn stl_opts_error(opts: StlOpts) -> Option<StlError> {
    if opts.period < 2 {
        Some(StlError::InvalidPeriod(opts.period))
    } else if opts.seasonal_window < 7 || opts.seasonal_window % 2 == 0 {
        Some(StlError::InvalidSeasonalWindow(opts.seasonal_window))
    } else if opts.trend_window is Some && opts.trend_window->0 % 2 == 0 {
        Some(StlError::InvalidTrendWindow(opts.trend_window->0))
    } else if opts.inner_iters == 0 {
        Some(StlError::InvalidInnerIters)
    } else if opts.seasonal_jump == 0 {
        Some(StlError::InvalidJump { which: "seasonal" })
    } else if opts.trend_jump == 0 {
        Some(StlError::InvalidJump { which: "trend" })
    } else if opts.low_pass_jump == 0 {
        Some(StlError::InvalidJump { which: "low_pass" })
    } else {
        None
    }
}

/// The options STL accepts: a period of at least 2, an odd seasonal
/// window of at least 7, an odd trend window when one is given, at least
/// one inner iteration (any number of outer ones) and jumps of at least 1.
pub open spec fn stl_opts_valid(opts: StlOpts) -> bool {
    &&& opts.period >= 2
    &&& opts.seasonal_window >= 7
    &&& opts.seasonal_window % 2 == 1
    &&& (opts.trend_window matches Some(t) ==> t % 2 == 1)
    &&& opts.inner_iters >= 1
    &&& opts.seasonal_jump >= 1
    &&& opts.trend_jump >= 1
    &&& opts.low_pass_jump >= 1
}

/// The options are rejected exactly when they are not valid, and an
/// inner-iteration count is rejected only when it is zero: every count of
/// at least one is accepted together with otherwise valid options.
pub proof fn lemma_stl_opts_error_iff_invalid(opts: StlOpts)
    ensures
        stl_opts_error(opts) is None <==> stl_opts_valid(opts),
        stl_opts_error(opts) == Some(StlError::InvalidInnerIters) ==> opts.inner_iters == 0,
        opts.inner_iters >= 1 ==> stl_opts_error(opts) != Some(StlError::InvalidInnerIters),
{
}

/// Smallest odd integer `t` with `t * (2 * ns - 3) >= 3 * period * ns`
/// (Cleveland's default trend span).
pub fn default_trend_window(period: u32, ns: u32) -> (t: u64)
    requires
        period >= 2,
        ns >= 7,
    ensures
        is_default_trend_window(t as int, period as int, ns as int),
{
    let pp: u128 = period as u128;
    let nn: u128 = ns as u128;
    assert(3 * pp * nn <= 3 * 0xffff_ffffu128 * 0xffff_ffffu128) by (nonlinear_arith)
        requires pp <= 0xffff_ffff, nn <= 0xffff_ffff;
    let num: u128 = 3 * pp * nn;
    let den: u128 = 2 * (ns as u128) - 3;
    let c: u128 = (num + den - 1) / den;
    proof {
        let ni = num as int;
        let di = den as int;
        let ci = c as int;
        assert(di >= 11);
        vstd::arithmetic::div_mod::lemma_fundamental_div_mod(ni + di - 1, di);
        assert(ci * di <= ni + di - 1 && ni + di - 1 < ci * di + di) by (nonlinear_arith)
            requires
                ci == (ni + di - 1) / di,
                di > 0,
                ni + di - 1 == di * ((ni + di - 1) / di) + (ni + di - 1) % di,
                0 <= (ni + di - 1) % di < di,
        ;
        assert(ci * di >= ni);
        assert((ci - 1) * di < ni) by (nonlinear_arith)
            requires ci * di <= ni + di - 1, di > 0;
        assert(ci <= 3 * (period as int) + 1) by (nonlinear_arith)
            requires
                ci * di <= ni + di - 1,
                ni == 3 * (period as int) * (ns as int),
                di == 2 * (ns as int) - 3,
                di >= 11,
                period >= 2,
        ;
    }
    if c % 2 == 0 {
        proof {
            let ci = c as int;
            let di = den as int;
            assert((ci + 1) * di >= ci * di) by (nonlinear_arith) requires di > 0;
            assert((ci + 1 - 2) * di < num as int) by (nonlinear_arith)
                requires (ci - 1) * di < num as int;
        }
        (c + 1) as u64
    } else {
        proof {
            let ci = c as int;
            let di = den as int;
            assert((ci - 2) * di < num as int) by (nonlinear_arith)
                requires (ci - 1) * di < num as int, di > 0;
        }
        c as u64
    }
}

/// Validate the STL options for a series of length `n`. `input_ok` is false
/// when the series holds a non-finite value that is not to be, or could not
/// be, filled by interpolation.
///
/// Checks run in STL's order: options, empty series, non-finite input,
/// series length (`n >= 2 * period`).
pub fn stl_plan(opts: &StlOpts, n: usize, input_ok: bool) -> (r: Result<StlPlan, StlError>)
    ensures
        match stl_opts_error(*opts) {
            Some(e) => r == Err::<StlPlan, StlError>(e),
            None => if n == 0 {
                r == Err::<StlPlan, StlError>(StlError::SeriesTooShort { n: 0, min: (2 * opts.period) as u64 })
            } else if !input_ok {
                r == Err::<StlPlan, StlError>(StlError::NonFinite)
            } else if n < 2 * opts.period {
                r == Err::<StlPlan, StlError>(StlError::SeriesTooShort { n, min: (2 * opts.period) as u64 })
            } else {
                r is Ok
            },
        },
        stl_opts_valid(*opts) && input_ok && n >= 2 * opts.period ==> r is Ok,
        r is Ok ==> stl_opts_valid(*opts) && input_ok && n >= 2 * opts.period,
        (r == Err::<StlPlan, StlError>(StlError::InvalidInnerIters)) <==> (opts.period >= 2
            && opts.seasonal_window >= 7 && opts.seasonal_window % 2 == 1
            && (opts.trend_window matches Some(t) ==> t % 2 == 1)
            && opts.inner_iters == 0),
        r matches Ok(plan) ==> {
            &&& plan.n == n
            &&& plan.period == opts.period
            &&& plan.seasonal_window == opts.seasonal_window
            &&& plan.low_pass_window == (if opts.period % 2 == 0 { opts.period + 1 } else { opts.period as int })
            &&& match opts.trend_window {
                Some(t) => plan.trend_window == t,
                None => is_default_trend_window(plan.trend_window as int, opts.period as int, opts.seasonal_window as int),
            }
            &&& plan.inner_iters == opts.inner_iters
            &&& plan.outer_iters == opts.outer_iters
            &&& plan.seasonal_jump == opts.seasonal_jump
            &&& plan.trend_jump == opts.trend_jump
            &&& plan.low_pass_jump == opts.low_pass_jump
            &&& plan.multiplicative == (opts.mode == DecomposeMode::Multiplicative)
        },
{
    if opts.period < 2 {
        return Err(StlError::InvalidPeriod(opts.period));
    }
    let ns = opts.seasonal_window;
    if ns < 7 || ns % 2 == 0 {
        return Err(StlError::InvalidSeasonalWindow(ns));
    }
    let n_t: u64 = match opts.trend_window {
        None => default_trend_window(opts.period, ns),
        Some(t) => {
            if t % 2 == 0 {
                return Err(StlError::InvalidTrendWindow(t));
            }
            t as u64
        },
    };
    if opts.inner_iters == 0 {
        return Err(StlError::InvalidInnerIters);
    }
    if opts.seasonal_jump == 0 {
        return Err(StlError::InvalidJump { which: "seasonal" });
    }
    if opts.trend_jump == 0 {
        return Err(StlError::InvalidJump { which: "trend" });
    }
    if opts.low_pass_jump == 0 {
        return Err(StlError::InvalidJump { which: "low_pass" });
    }
    let min: u64 = 2 * (opts.period as u64);
    if n == 0 {
        return Err(StlError::SeriesTooShort { n: 0, min });
    }
    if !input_ok {
        return Err(StlError::NonFinite);
    }
    if (n as u64) < min {
        return Err(StlError::SeriesTooShort { n, min });
    }
    let period: usize = opts.period as usize;
    let n_l: usize = if period % 2 == 0 { period + 1 } else { period };
    Ok(StlPlan {
        n,
        period,
        seasonal_window: ns as usize,
        low_pass_window: n_l,
        trend_window: n_t,
        inner_iters: opts.inner_iters as usize,
        outer_iters: opts.outer_iters as usize,
        seasonal_jump: opts.seasonal_jump as usize,
        trend_jump: opts.trend_jump as usize,
        low_pass_jump: opts.low_pass_jump as usize,
        multiplicative: match opts.mode {
            DecomposeMode::Multiplicative => true,
            DecomposeMode::Additive => false,
        },
    })
}


/// Why the classical decomposition rejected its input.
#[derive(Debug, Clone, Copy, PartialEq, Eq)]
pub enum SeasonalDecomposeError {
    /// `period < 2`.
    InvalidPeriod(u32),
    /// Fewer than `2 * period` observations.
    SeriesTooShort { n: usize, min: u64 },
    /// A non-finite value that could not be (or was not to be) filled.
    NonFinite,
}

/// The validated parameters of one classical decomposition.
#[derive(Debug, Clone, Copy)]
pub struct DecomposePlan {
    pub n: usize,
    pub period: usize,
    pub multiplicative: bool,
}

/// Validate a classical decomposition of `n` observations. `input_ok` is
/// false when the series holds a non-finite value that is not to be, or
/// could not be, filled. Checks run in order: period, empty series,
/// non-finite input, length (`n >= 2 * period`).
pub fn decompose_plan(opts: &SeasonalDecomposeOpts, n: usize, input_ok: bool)
    -> (r: Result<DecomposePlan, SeasonalDecomposeError>)
    ensures
        if opts.period < 2 {
            r == Err::<DecomposePlan, SeasonalDecomposeError>(SeasonalDecomposeError::InvalidPeriod(opts.period))
        } else if n == 0 {
            r == Err::<DecomposePlan, SeasonalDecomposeError>(
                SeasonalDecomposeError::SeriesTooShort { n: 0, min: (2 * opts.period) as u64 })
        } else if !input_ok {
            r == Err::<DecomposePlan, SeasonalDecomposeError>(SeasonalDecomposeError::NonFinite)
        } else if n < 2 * opts.period {
            r == Err::<DecomposePlan, SeasonalDecomposeError>(
                SeasonalDecomposeError::SeriesTooShort { n, min: (2 * opts.period) as u64 })
        } else {
            r == Ok::<DecomposePlan, SeasonalDecomposeError>(DecomposePlan {
                n,
                period: opts.period as usize,
                multiplicative: opts.mode == DecomposeMode::Multiplicative,
            })
        },
{
    if opts.period < 2 {
        return Err(SeasonalDecomposeError::InvalidPeriod(opts.period));
    }
    let min: u64 = 2 * (opts.period as u64);
    if n == 0 {
        return Err(SeasonalDecomposeError::SeriesTooShort { n: 0, min });
    }
    if !input_ok {
        return Err(SeasonalDecomposeError::NonFinite);
    }
    if (n as u64) < min {
        return Err(SeasonalDecomposeError::SeriesTooShort { n, min });
    }
    Ok(DecomposePlan {
        n,
        period: opts.period as usize,
        multiplicative: match opts.mode {
            DecomposeMode::Multiplicative => true,
            DecomposeMode::Additive => false,
        },
    })
}

/// The positions `[start, end)` where a centred moving average of length
/// `window` over `n` values is defined: the first and last `window / 2`
/// positions are left out; nothing is defined when `window == 0` or
/// `n < window`.
pub fn centered_band(n: usize, window: usize) -> (r: (usize, usize))
    ensures
        if window == 0 || n < window {
            r == (0usize, 0usize)
        } else {
            r.0 == window / 2 && r.1 == n - window / 2 && r.0 <= r.1
        },
{
    if window == 0 || n < window {
        (0, 0)
    } else {
        (window / 2, n - window / 2)
    }
}

/// Number of positions `i` in `[lo, hi)` with `i % period == k`.
pub open spec fn band_count(lo: int, hi: int, period: int, k: int) -> int
    decreases hi - lo,
{
    if hi <= lo {
        0
    } else {
        band_count(lo, hi - 1, period, k) + (if (hi - 1) % period == k { 1int } else { 0 })
    }
}

proof fn lemma_band_count_hit(lo: int, hi: int, period: int, j: int)
    requires
        lo <= j < hi,
    ensures
        band_count(lo, hi, period, j % period) >= 1,
    decreases hi - lo,
{
    if hi - 1 != j {
        lemma_band_count_hit(lo, hi - 1, period, j);
    } else {
        lemma_band_count_nonneg(lo, hi - 1, period, j % period);
    }
}

proof fn lemma_band_count_nonneg(lo: int, hi: int, period: int, k: int)
    ensures
        band_count(lo, hi, period, k) >= 0,
    decreases hi - lo,
{
    if hi > lo {
        lemma_band_count_nonneg(lo, hi - 1, period, k);
    }
}

proof fn lemma_band_count_bound(lo: int, hi: int, period: int, k: int)
    requires
        lo <= hi,
    ensures
        band_count(lo, hi, period, k) <= hi - lo,
    decreases hi - lo,
{
    if hi > lo {
        lemma_band_count_bound(lo, hi - 1, period, k);
    }
}

/// Every phase of the period is observed inside the centred band of a
/// series holding at least two periods, so each per-phase mean of the
/// classical decomposition averages at least one value.
pub proof fn lemma_every_phase_in_band(n: int, period: int, k: int)
    requires
        2 <= period,
        2 * period <= n,
        0 <= k < period,
    ensures
        band_count(period / 2, n - period / 2, period, k) >= 1,
{
    let lo = period / 2;
    let t = (k - lo) % period;
    let j = lo + t;
    assert(lo % period == lo) by {
        vstd::arithmetic::div_mod::lemma_small_mod(lo as nat, period as nat);
    }
    assert(k % period == k) by {
        vstd::arithmetic::div_mod::lemma_small_mod(k as nat, period as nat);
    }
    assert(j % period == k) by {
        vstd::arithmetic::div_mod::lemma_add_mod_noop(lo, k - lo, period);
        vstd::arithmetic::div_mod::lemma_mod_twice(k - lo, period);
        vstd::arithmetic::div_mod::lemma_add_mod_noop(lo, t, period);
    }
    lemma_band_count_hit(lo, n - lo, period, j);
}

/// Number of observations of each phase `k < period` inside the centred
/// band `[period / 2, n - period / 2)`: the values averaged into the
/// seasonal pattern of the classical decomposition. Each is at least one.
pub fn phase_counts(n: usize, period: usize) -> (r: Vec<usize>)
    requires
        2 <= period,
        2 * period <= n,
    ensures
        r.len() == period,
        forall|k: int| 0 <= k < period ==> r[k] == band_count((period / 2) as int, (n - period / 2) as int, period as int, k),
        forall|k: int| 0 <= k < period ==> r[k] >= 1,
{
    let half = period / 2;
    let hi = n - half;
    let mut counts: Vec<usize> = Vec::new();
    let mut k: usize = 0;
    while k < period
        invariant
            k <= period,
            counts.len() == k,
            forall|j: int| 0 <= j < k ==> counts[j] == 0,
        decreases period - k,
    {
        counts.push(0);
        k = k + 1;
    }
    let mut i: usize = half;
    while i < hi
        invariant
            half <= i <= hi,
            hi == n - half,
            half == period / 2,
            counts.len() == period,
            2 <= period,
            forall|j: int| 0 <= j < period ==> counts[j] == band_count(half as int, i as int, period as int, j),
        decreases hi - i,
    {
        let ph = i % period;
        proof {
            lemma_band_count_bound(half as int, i as int, period as int, ph as int);
        }
        let c = counts[ph];
        counts.set(ph, c + 1);
        i = i + 1;
        proof {
            assert forall|j: int| 0 <= j < period implies counts[j] == band_count(half as int, i as int, period as int, j) by {
                assert(band_count(half as int, i as int, period as int, j)
                    == band_count(half as int, i - 1, period as int, j) + (if (i - 1) % (period as int) == j { 1int } else { 0 }));
            }
        }
    }
    proof {
        assert forall|k: int| 0 <= k < period implies counts[k] >= 1 by {
            lemma_every_phase_in_band(n as int, period as int, k);
        }
    }
    counts
}


/// Number of values of phase `phase` in a series of length `n`: the
/// positions `phase, phase + period, ...` below `n`.
pub open spec fn spec_subseries_len(n: int, period: int, phase: int) -> int {
    if phase >= n { 0 } else { (n - phase - 1) / period + 1 }
}

/// Length of the cycle subseries of `phase`.
pub fn subseries_len(n: usize, period: usize, phase: usize) -> (r: usize)
    requires
        1 <= period,
        phase < period,
    ensures
        r == spec_subseries_len(n as int, period as int, phase as int),
        phase >= n ==> r == 0,
        phase < n ==> r >= 1 && phase + (r - 1) * period < n && n <= phase + r * period,
{
    if phase >= n {
        0
    } else {
        let r = (n - phase - 1) / period + 1;
        proof {
            let a = (n - phase - 1) as int;
            let pi = period as int;
            vstd::arithmetic::div_mod::lemma_fundamental_div_mod(a, pi);
            let qq = a / pi;
            assert(0 <= a % pi < pi) by {
                vstd::arithmetic::div_mod::lemma_mod_bound(a, pi);
            }
            assert(qq * pi <= a && a < (qq + 1) * pi) by (nonlinear_arith)
                requires a == pi * qq + a % pi, 0 <= a % pi < pi;
            assert(r as int == qq + 1);
        }
        r
    }
}

/// Neighbourhood size of a cycle-subseries LOESS fit: the span, raised to
/// `degree + 2` points and capped at the subseries length.
pub fn subseries_span(span: usize, degree: usize, sub_n: usize) -> (r: usize)
    requires
        degree + 2 <= usize::MAX,
    ensures
        r == (if sub_n < (if span >= degree + 2 { span as int } else { degree + 2 }) {
            sub_n as int
        } else if span >= degree + 2 {
            span as int
        } else {
            degree + 2
        }),
{
    let k = if span >= degree + 2 { span } else { degree + 2 };
    if sub_n < k { sub_n } else { k }
}

/// Positions of a subseries of length `sub_n` at which LOESS is fitted when
/// jumping by `jump`: every multiple of `jump` below `sub_n`, then the last
/// position `sub_n - 1` when it is not such a multiple.
pub open spec fn spec_fit_points(sub_n: int, jump: int) -> Seq<int> {
    let cnt = (sub_n - 1) / jump + 1;
    Seq::new(cnt as nat, |i: int| i * jump)
        + (if (sub_n - 1) % jump != 0 { seq![sub_n - 1] } else { Seq::empty() })
}

/// The LOESS fit positions of a subseries under Cleveland's jump. They start
/// at the first position, end at the last, increase strictly and are never
/// more than `jump` apart, so linear interpolation between them reaches
/// every position of the subseries.
pub fn jump_fit_points(sub_n: usize, jump: usize) -> (r: Vec<usize>)
    requires
        1 <= sub_n,
        1 <= jump,
    ensures
        r@.map_values(|x: usize| x as int) == spec_fit_points(sub_n as int, jump as int),
        r.len() >= 1,
        r[0] == 0,
        r[r.len() - 1] == sub_n - 1,
        forall|i: int| #![trigger r[i]] 0 <= i < r.len() - 1 ==> r[i] < r[i + 1] && r[i + 1] <= r[i] + jump,
{
    let cnt: usize = (sub_n - 1) / jump + 1;
    proof {
        let a = (sub_n - 1) as int;
        let pi = jump as int;
        vstd::arithmetic::div_mod::lemma_fundamental_div_mod(a, pi);
        vstd::arithmetic::div_mod::lemma_mod_bound(a, pi);
        assert((cnt - 1) * pi <= a && a < cnt * pi) by (nonlinear_arith)
            requires a == pi * (a / pi) + a % pi, 0 <= a % pi < pi, cnt == a / pi + 1;
    }
    let mut out: Vec<usize> = Vec::new();
    let mut i: usize = 0;
    let mut pos: usize = 0;
    while i < cnt
        invariant
            1 <= jump,
            1 <= cnt,
            (cnt - 1) * jump <= sub_n - 1 < cnt * jump,
            i <= cnt,
            out.len() == i,
            pos == (if i < cnt { i * jump } else { (cnt - 1) * jump }),
            forall|t: int| 0 <= t < out.len() ==> out[t] == t * jump,
        decreases cnt - i,
    {
        proof {
            assert(i * jump <= (cnt - 1) * jump) by (nonlinear_arith) requires i <= cnt - 1, jump >= 1;
        }
        out.push(pos);
        i = i + 1;
        if i < cnt {
            proof {
                assert(i * jump == (i - 1) * jump + jump) by (nonlinear_arith);
                assert(i * jump <= (cnt - 1) * jump) by (nonlinear_arith) requires i <= cnt - 1, jump >= 1;
            }
            pos = pos + jump;
        }
    }
    let ghost multiples = out@;
    let last = out[out.len() - 1];
    if last != sub_n - 1 {
        out.push(sub_n - 1);
    }
    proof {
        let sp = spec_fit_points(sub_n as int, jump as int);
        let a = (sub_n - 1) as int;
        vstd::arithmetic::div_mod::lemma_fundamental_div_mod(a, jump as int);
        assert(a % (jump as int) == a - (cnt - 1) * jump) by (nonlinear_arith)
            requires a == (jump as int) * (a / (jump as int)) + a % (jump as int), cnt - 1 == a / (jump as int);
        assert(out@.map_values(|x: usize| x as int) =~= sp);
        assert forall|t: int| #![trigger out[t]] 0 <= t < out.len() - 1 implies out[t] < out[t + 1] && out[t + 1] <= out[t] + jump by {
            if t + 1 < cnt {
                assert((t + 1) * jump == t * jump + jump) by (nonlinear_arith);
            }
        }
    }
    out
}

/// Position in the extended cycle-subseries series (length `n + 2 * period`)
/// of the `t`-th slot of phase `phase`: slot `0` is the value extrapolated
/// one period before the series, slots `1..=sub_n` the smoothed subseries,
/// slot `sub_n + 1` the value extrapolated one period after it.
pub fn extended_slot(n: usize, period: usize, phase: usize, t: usize) -> (r: usize)
    requires
        1 <= period,
        phase < period,
        phase < n,
        t <= spec_subseries_len(n as int, period as int, phase as int) + 1,
        n + 2 * period <= usize::MAX,
    ensures
        r == phase + t * period,
        r < n + 2 * period,
{
    proof {
        let sub = spec_subseries_len(n as int, period as int, phase as int);
        let a = (n - phase - 1) as int;
        vstd::arithmetic::div_mod::lemma_fundamental_div_mod(a, period as int);
        vstd::arithmetic::div_mod::lemma_mod_bound(a, period as int);
        assert((sub - 1) * period <= a) by (nonlinear_arith)
            requires a == (period as int) * (a / (period as int)) + a % (period as int),
                0 <= a % (period as int), sub - 1 == a / (period as int);
        assert(t * period <= (sub + 1) * period) by (nonlinear_arith) requires t <= sub + 1, period >= 1;
        assert((sub + 1) * period == (sub - 1) * period + 2 * period) by (nonlinear_arith);
    }
    phase + t * period
}

/// Every position `q` of the extended series of length `n + 2 * period` is
/// the slot `q / period` of phase `q % period`, and that slot exists, so
/// the cycle-subseries step fills the whole extended series, each position
/// once (a position determines its phase and slot).
pub proof fn lemma_extended_slots_cover(n: int, period: int, q: int)
    requires
        1 <= period <= n,
        0 <= q < n + 2 * period,
    ensures
        q == q % period + (q / period) * period,
        q % period < n,
        q / period <= spec_subseries_len(n, period, q % period) + 1,
{
    let ph = q % period;
    let t = q / period;
    vstd::arithmetic::div_mod::lemma_fundamental_div_mod(q, period);
    vstd::arithmetic::div_mod::lemma_mod_bound(q, period);
    assert(q == ph + t * period) by (nonlinear_arith) requires q == period * t + ph;
    let sub = spec_subseries_len(n, period, ph);
    let a = n - ph - 1;
    vstd::arithmetic::div_mod::lemma_fundamental_div_mod(a, period);
    vstd::arithmetic::div_mod::lemma_mod_bound(a, period);
    assert(n <= ph + sub * period) by (nonlinear_arith)
        requires a == period * (a / period) + a % period, a % period < period, sub == a / period + 1, a == n - ph - 1;
    assert(t < sub + 2) by (nonlinear_arith)
        requires q == ph + t * period, q < n + 2 * period, n <= ph + sub * period, period >= 1;
}

/// Length of the valid (unpadded) moving average of length `window` over
/// `n` values: `n - window + 1`, or nothing when `window == 0` or
/// `n < window`.
pub open spec fn spec_valid_ma_len(n: int, window: int) -> int {
    if window == 0 || n < window { 0 } else { n - window + 1 }
}

pub fn valid_ma_len(n: usize, window: usize) -> (r: usize)
    ensures
        r == spec_valid_ma_len(n as int, window as int),
{
    if window == 0 || n < window { 0 } else { n - window + 1 }
}

/// The low-pass filter of STL (moving averages of lengths `period`,
/// `period` and 3 over the extended series of length `n + 2 * period`)
/// returns exactly `n` values, one per observation.
pub proof fn lemma_low_pass_length(n: int, period: int)
    requires
        1 <= n,
        1 <= period,
    ensures
        spec_valid_ma_len(spec_valid_ma_len(spec_valid_ma_len(n + 2 * period, period), period), 3) == n,
{
}

} // verus!
