//! How many noise samples a simulation draws and which of them it keeps.
//!
//! A simulated series of `length` samples starts from a longer run of noise.
//! The first `ar + ma` filtered samples have no full history behind them and
//! are discarded as burn-in. Where the model is integrated `d` times, `d`
//! samples fewer are kept, because summing the kept window back up `d` times
//! puts `d` leading samples in front of it again.

use crate::error::FitError;
use vstd::prelude::*;

verus! {

/// The sample counts of one simulation run.
#[derive(Clone, Copy, Debug, PartialEq, Eq, Structural)]
pub struct SimulationPlan {
    /// Number of leading samples that are filtered and then discarded.
    pub burn_in: usize,
    /// Number of noise samples to draw in all.
    pub draws: usize,
    /// End of the window of filtered samples that is kept; it starts at
    /// `burn_in`.
    pub keep_end: usize,
}

/// Plans the simulation of `length` samples of a model with `ar`
/// autoregressive and `ma` moving-average coefficients that is integrated
/// `d` times.
///
/// The run draws `ar + ma + length` noise samples, discards the first
/// `ar + ma` filtered samples and keeps the next `length - d`, so that
/// re-integration brings the series to `length` samples. A series shorter
/// than its integration order cannot be simulated.
pub fn simulation_plan(length: usize, ar: usize, ma: usize, d: usize) -> (r: Result<
    SimulationPlan,
    FitError,
>)
    requires
        ar + ma + length <= usize::MAX,
    ensures
        r is Ok <==> d <= length,
        r matches Ok(plan) ==> {
            &&& plan.burn_in == ar + ma
            &&& plan.draws == ar + ma + length
            &&& plan.keep_end == ar + ma + length - d
        },
        r matches Err(e) ==> e == FitError::InvalidOrder,
{
    if d > length {
        return Err(FitError::InvalidOrder);
    }
    let burn_in = ar + ma;
    let draws = burn_in + length;
    Ok(SimulationPlan { burn_in, draws, keep_end: draws - d })
}

} // verus!
