//! Ljung-Box residual diagnostics: the lag bookkeeping of the test.
use vstd::prelude::*;

verus! {

/// Degrees of freedom of the Ljung-Box statistic: `lags - fitted_params`,
/// and at least 1 so the chi-squared approximation stays usable.
pub fn ljung_box_df(lags: usize, fitted_params: usize) -> (r: usize)
    ensures
        r == (if lags - fitted_params >= 1 { lags - fitted_params } else { 1 }),
{
    if lags > fitted_params && lags - fitted_params >= 1 {
        lags - fitted_params
    } else {
        1
    }
}

/// Number of autocorrelation lags that enter the statistic for `n`
/// residuals: lags `1..=lags` below `n`.
pub fn ljung_box_lags_used(lags: usize, n: usize) -> (r: usize)
    ensures
        r == (if n == 0 { 0 } else if lags <= n - 1 { lags as int } else { n - 1 }),
{
    if n == 0 {
        0
    } else if lags <= n - 1 {
        lags
    } else {
        n - 1
    }
}

} // verus!
