//! Time-series analysis.
pub mod arima;
pub mod diagnostics;
pub mod seasonal;
pub mod stationarity;
