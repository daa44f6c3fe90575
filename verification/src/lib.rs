//! Statistical time-series modelling: the integer-valued configuration,
//! validation and bookkeeping of seasonal decomposition (STL and the
//! classical moving-average method), ARIMA / SARIMA fitting, stepwise
//! model selection, stationarity testing and residual diagnostics.
pub mod tsa;

pub use tsa::arima::auto::{AutoArimaOpts, AutoSearch, Key, SearchAction, neighbours_of};
pub use tsa::arima::{ArimaError, ArimaLayout, ArimaMethod, ArimaOpts, arima_layout};
pub use tsa::seasonal::{
    DecomposeMode, DecomposePlan, Missing, SeasonalDecomposeError, SeasonalDecomposeOpts, StlError,
    StlOpts, StlPlan, decompose_plan, stl_plan,
};
pub use tsa::stationarity::{DiffAction, DiffSearch, KpssRegression, kpss_lag};
