//! Which orders and lags a series of a given length admits.
//!
//! Every estimator works on a series of `len` samples and an order (or a
//! highest lag) that must stay below `len`. The checks here are made before
//! any numeric work, so that a request that cannot be served is turned down
//! with a reason instead of running into an index out of range.

use crate::error::FitError;
use vstd::prelude::*;

verus! {

/// The highest lag that is computed for a series of `len` samples when
/// `requested` is asked for: the request itself, but never more than
/// `len - 1`, and `len - 1` where nothing is asked for.
pub open spec fn clamped_lag(requested: Option<usize>, len: int) -> int {
    match requested {
        Some(lag) => if lag < len - 1 {
            lag as int
        } else {
            len - 1
        },
        None => len - 1,
    }
}

/// Checks that a series of `len` samples can be fitted at `order`.
///
/// An empty series is turned down as insufficient data, whatever the order;
/// otherwise the order is invalid exactly when it is not below `len`.
pub fn check_order(len: usize, order: usize) -> (r: Result<(), FitError>)
    ensures
        r is Ok <==> order < len,
        r == Err::<(), FitError>(FitError::InsufficientData) <==> len == 0,
        r == Err::<(), FitError>(FitError::InvalidOrder) <==> 0 < len <= order,
{
    if len == 0 {
        Err(FitError::InsufficientData)
    } else if order >= len {
        Err(FitError::InvalidOrder)
    } else {
        Ok(())
    }
}

/// The highest lag to compute on a sequence of `len` values when
/// `requested` is asked for.
///
/// The request is cut down to `len - 1`; without a request every lag up to
/// `len - 1` is computed. An empty sequence is turned down.
pub fn clamp_lag(requested: Option<usize>, len: usize) -> (r: Result<usize, FitError>)
    ensures
        r is Ok <==> len >= 1,
        r matches Ok(lag) ==> lag == clamped_lag(requested, len as int) && lag < len,
        r matches Err(e) ==> e == FitError::InsufficientData,
{
    if len == 0 {
        return Err(FitError::InsufficientData);
    }
    match requested {
        Some(lag) => if lag < len - 1 {
            Ok(lag)
        } else {
            Ok(len - 1)
        },
        None => Ok(len - 1),
    }
}

/// The highest lag of the autocorrelation of a series of `len` samples when
/// `requested` is asked for.
///
/// It is the request cut down to `len - 1`. With fewer than two samples no
/// autocorrelation is defined, and the series is turned down.
pub fn autocorrelation_lag(requested: Option<usize>, len: usize) -> (r: Result<usize, FitError>)
    ensures
        r is Ok <==> len >= 2,
        r matches Ok(lag) ==> lag == clamped_lag(requested, len as int) && lag < len,
        r matches Err(e) ==> e == FitError::InsufficientData,
{
    if len < 2 {
        Err(FitError::InsufficientData)
    } else {
        clamp_lag(requested, len)
    }
}

/// Length of the series that is left after `d` rounds of differencing, each
/// of which costs one sample.
///
/// A series with fewer than `d` samples cannot be differenced `d` times.
pub fn length_after_diff(len: usize, d: usize) -> (r: Result<usize, FitError>)
    ensures
        r is Ok <==> d <= len,
        r matches Ok(rest) ==> rest == len - d,
        r matches Err(e) ==> e == FitError::InsufficientData,
{
    if d > len {
        Err(FitError::InsufficientData)
    } else {
        Ok(len - d)
    }
}

/// Checks that a series of `len` samples can be fitted with `ar`
/// autoregressive and `ma` moving-average coefficients after `d` rounds of
/// differencing, and gives the length of the differenced series.
///
/// The request is served exactly when both orders are below the length that
/// differencing leaves. Where differencing leaves nothing the data are
/// insufficient; otherwise an order that is too high is invalid.
pub fn check_integrated_orders(len: usize, ar: usize, d: usize, ma: usize) -> (r: Result<
    usize,
    FitError,
>)
    ensures
        r is Ok <==> ar < len - d && ma < len - d,
        r matches Ok(rest) ==> rest == len - d,
        r == Err::<usize, FitError>(FitError::InsufficientData) <==> len <= d,
        r == Err::<usize, FitError>(FitError::InvalidOrder)
            <==> d < len && (ar >= len - d || ma >= len - d),
{
    if d >= len {
        return Err(FitError::InsufficientData);
    }
    let rest = len - d;
    if ar >= rest || ma >= rest {
        Err(FitError::InvalidOrder)
    } else {
        Ok(rest)
    }
}

} // verus!
