# rust_stats

Time-series statistics (STL and classical seasonal decomposition, ARIMA /
SARIMA, stepwise `auto_arima`, KPSS, Ljung-Box, Holt-Winters).

- `src/` — the verified library: options and their defaults, parameter
  validation with exact error reporting, the sizes and index layout of every
  computation (centred band, per-phase counts, cycle-subseries slots, LOESS
  jump points, differencing and start-up windows of ARIMA), the KPSS lag
  rule, the differencing-order searches and the stepwise model search of
  `auto_arima` as a state machine whose laws (no candidate fitted twice,
  only admissible candidates, pinned constant kept, termination) are proved.
- `app/` — the floating-point routines, which take their validation, sizes
  and search decisions from the library. STL takes its LOESS smoother as a
  `Loess` implementation supplied by the caller.
- `tests/` — tests of the library on concrete values.
