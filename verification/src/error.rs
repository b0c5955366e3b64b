//! The faults the driver reports.

use vstd::prelude::*;

verus! {

/// Everything that can go wrong between the caller and the engine.
#[derive(Clone, Copy, Debug, PartialEq, Eq, Structural)]
pub enum QbsolvError {
    /// The specialised-hardware sampler could not be set up.
    SamplerInitError,
    /// A sub-problem callback answered with the wrong number of variables.
    ResultArityMismatch,
    /// The callback trampoline was reached without a callback behind it.
    BridgeInvariantViolation,
    /// A triplet names a row or column outside the declared variable count.
    IndexOutOfBounds,
}

} // verus!
