//! The estimation methods and information criteria that each model family
//! accepts. The variants carry no data; they only select a code path.

use vstd::prelude::*;

verus! {

/// How an autoregressive model is estimated.
#[derive(Clone, Copy, Debug, PartialEq, Eq, Structural)]
pub enum ARMethod {
    /// Ordinary least squares on the lagged-regressor matrix.
    OLS,
    /// Yule-Walker equations on the empirical autocovariances.
    YWALKER,
    /// Burg's lattice recursion.
    BURG,
    /// Conditional sum of squares, minimised numerically.
    CSS,
}

/// The information criterion that picks the order of an autoregressive model.
#[derive(Clone, Copy, Debug, PartialEq, Eq, Structural)]
pub enum ARCriterion {
    /// Akaike information criterion.
    AIC,
    /// Bayesian information criterion.
    BIC,
}

/// How a moving-average model is estimated.
#[derive(Clone, Copy, Debug, PartialEq, Eq, Structural)]
pub enum MAMethod {
    /// Durbin's two-stage method.
    DURBIN,
    /// Conditional sum of squares, minimised numerically.
    CSS,
}

/// The information criterion that picks the order of a moving-average model.
#[derive(Clone, Copy, Debug, PartialEq, Eq, Structural)]
pub enum MACriterion {
    /// Akaike information criterion.
    AIC,
    /// Bayesian information criterion.
    BIC,
}

/// How an ARMA model is estimated.
#[derive(Clone, Copy, Debug, PartialEq, Eq, Structural)]
pub enum ARMAMethod {
    /// Conditional sum of squares, minimised numerically.
    CSS,
    /// Maximum likelihood.
    ML,
}

/// The information criterion that picks the order pair of an ARMA model.
#[derive(Clone, Copy, Debug, PartialEq, Eq, Structural)]
pub enum ARMACriterion {
    /// Akaike information criterion.
    AIC,
    /// Bayesian information criterion.
    BIC,
}

/// How an ARIMA model is estimated.
#[derive(Clone, Copy, Debug, PartialEq, Eq, Structural)]
pub enum ARIMAMethod {
    /// Conditional sum of squares, minimised numerically.
    CSS,
    /// Maximum likelihood.
    ML,
}

/// The information criterion that picks the order pair of an ARIMA model.
#[derive(Clone, Copy, Debug, PartialEq, Eq, Structural)]
pub enum ARIMACriterion {
    /// Akaike information criterion.
    AIC,
    /// Bayesian information criterion.
    BIC,
}

/// How a fractionally integrated model is estimated.
#[derive(Clone, Copy, Debug, PartialEq, Eq, Structural)]
pub enum FARIMAMethod {
    /// Conditional sum of squares, minimised numerically.
    CSS,
}

} // verus!
