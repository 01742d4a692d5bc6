//! The exact, discrete side of a time-series estimation engine for AR, MA,
//! ARMA, ARIMA and fractionally integrated models: which lags and orders a
//! series admits, how regression matrices and parameter vectors are laid out,
//! how many samples a simulation draws and keeps, and which candidate order
//! an information criterion selects.
//!
//! The numeric kernels of such an engine run in binary64 arithmetic and stay
//! with the program that uses this library. They come here for every
//! decision about positions, lengths and orders, and each of those decisions
//! is proved to be what its contract says.

pub mod design;
pub mod error;
pub mod grid;
pub mod method;
pub mod order;
pub mod params;
pub mod score;
pub mod select;
pub mod simulate;
