//! The lagged regression that least-squares estimators solve.
//!
//! To regress a series on its own past at order `p`, every sample from index
//! `p` on becomes one equation: the sample is the target, and the `p` samples
//! just before it, the nearest first, are its regressors. A series of `n`
//! samples so gives `n - p` rows of `p` entries each. The element type is
//! left open: only positions are decided here, never values.

use crate::error::FitError;
use crate::order::check_order;
use vstd::prelude::*;

verus! {

/// Index in the series of the regressor in row `row` and column `col` of the
/// lagged regression at `order`: column 0 holds lag 1, the sample just before
/// the target of the row.
pub open spec fn lag_index(order: int, row: int, col: int) -> int {
    order + row - col - 1
}

/// Whether `rows` is the regressor matrix of `series` at `order`.
pub open spec fn is_lag_matrix<T>(rows: Seq<Vec<T>>, series: Seq<T>, order: int) -> bool {
    &&& rows.len() == series.len() - order
    &&& forall|r: int| 0 <= r < rows.len() ==> (#[trigger] rows[r]).len() == order
    &&& forall|r: int, c: int|
        0 <= r < rows.len() && 0 <= c < order
            ==> #[trigger] rows[r][c] == series[lag_index(order, r, c)]
}

/// The targets of the lagged regression of `series` at `order`: the samples
/// from index `order` on.
pub open spec fn lag_targets<T>(series: Seq<T>, order: int) -> Seq<T> {
    series.subrange(order, series.len() as int)
}

/// Builds the regressor matrix of `series` at `order`, one row per target.
///
/// The matrix is built exactly when `order` is below the number of samples;
/// it then has one row for each sample from index `order` on, and row `r`
/// holds the `order` samples before sample `order + r`, the nearest first.
pub fn lag_matrix<T: Copy>(series: &Vec<T>, order: usize) -> (m: Result<Vec<Vec<T>>, FitError>)
    ensures
        m is Ok <==> order < series.len(),
        m matches Ok(rows) ==> is_lag_matrix(rows@, series@, order as int),
        m == Err::<Vec<Vec<T>>, FitError>(FitError::InsufficientData) <==> series.len() == 0,
        m == Err::<Vec<Vec<T>>, FitError>(FitError::InvalidOrder) <==> 0 < series.len() <= order,
{
    match check_order(series.len(), order) {
        Err(e) => {
            return Err(e);
        },
        Ok(_) => {},
    }
    let n = series.len();
    let mut rows: Vec<Vec<T>> = Vec::new();
    let mut i: usize = order;
    while i < n
        invariant
            order <= i <= n,
            n == series.len(),
            rows.len() == i - order,
            forall|r: int| 0 <= r < rows.len() ==> (#[trigger] rows[r]).len() == order,
            forall|r: int, c: int|
                0 <= r < rows.len() && 0 <= c < order
                    ==> #[trigger] rows[r][c] == series[lag_index(order as int, r, c)],
        decreases n - i,
    {
        let mut row: Vec<T> = Vec::new();
        let mut j: usize = 0;
        while j < order
            invariant
                j <= order <= i < n,
                n == series.len(),
                row.len() == j,
                forall|c: int|
                    0 <= c < j ==> #[trigger] row[c] == series[lag_index(order as int, i - order, c)],
            decreases order - j,
        {
            row.push(series[i - j - 1]);
            j += 1;
        }
        rows.push(row);
        i += 1;
    }
    Ok(rows)
}

/// Collects the targets of the lagged regression of `series` at `order`.
///
/// They are collected exactly when `order` is below the number of samples,
/// one for each row of the regressor matrix.
pub fn targets<T: Copy>(series: &Vec<T>, order: usize) -> (t: Result<Vec<T>, FitError>)
    ensures
        t is Ok <==> order < series.len(),
        t matches Ok(y) ==> y@ == lag_targets(series@, order as int),
        t == Err::<Vec<T>, FitError>(FitError::InsufficientData) <==> series.len() == 0,
        t == Err::<Vec<T>, FitError>(FitError::InvalidOrder) <==> 0 < series.len() <= order,
{
    match check_order(series.len(), order) {
        Err(e) => {
            return Err(e);
        },
        Ok(_) => {},
    }
    let n = series.len();
    let mut y: Vec<T> = Vec::new();
    let mut i: usize = order;
    while i < n
        invariant
            order <= i <= n,
            n == series.len(),
            y@ == series@.subrange(order as int, i as int),
        decreases n - i,
    {
        y.push(series[i]);
        i += 1;
    }
    Ok(y)
}

} // verus!
