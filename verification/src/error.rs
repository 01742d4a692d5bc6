//! Why an estimation request is turned down before any numeric work.

use vstd::prelude::*;

verus! {

/// The reasons for which a request cannot be served on the series at hand.
#[derive(Clone, Copy, Debug, PartialEq, Eq, Structural)]
pub enum FitError {
    /// The series has too few samples for the operation, whatever the order.
    InsufficientData,
    /// The requested order is not below the number of samples at hand.
    InvalidOrder,
}

} // verus!
