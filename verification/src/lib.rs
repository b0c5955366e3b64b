//! Driver core for a decomposing QUBO solver.
//!
//! The crate prepares everything the decomposition engine consumes (dense
//! matrix, configuration, output buffers), bridges sub-problem callbacks, and
//! turns the engine's raw output arrays into a ranked list of solutions.

pub mod bridge;
pub mod encode;
pub mod error;
pub mod extract;
pub mod params;
pub mod sampler;
pub mod scalar;
pub mod solve;
