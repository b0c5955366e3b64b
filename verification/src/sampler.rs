//! Sampler abstraction: who solves the sub-problems, and what the engine's
//! configuration struct holds for each choice.

use vstd::prelude::*;
use crate::error::QbsolvError;
use crate::params::{signed_low_32, truncate_to_i32, QbsolvParams};

verus! {

/// The restart budget of the engine's own defaults.
pub const DEFAULT_REPEATS: i32 = 50;

/// The sub-problem size of the engine's own defaults.
pub const DEFAULT_SUB_SIZE: i32 = 47;

/// A strategy for solving sub-problems.
///
/// `T` is whatever the caller wants handed back to its callback, and `F` the
/// callback itself: given the `m` rows of an `m` by `m` upper-triangular
/// sub-matrix, `m`, and the data, it answers with `m` booleans.
pub enum Solver<T, F> {
    /// The engine's built-in local search.
    Tabu,
    /// The built-in search on specialised hardware.
    Dw,
    /// A search the caller supplies.
    Callback { callback: F, data: T },
}

/// Stands where a callback would, in a solver that has none.
#[derive(Clone, Copy, Debug, PartialEq, Eq, Structural)]
pub struct NoCallback;

/// What the sub-sampler function slot of the engine's configuration holds.
#[derive(Clone, Copy, Debug, PartialEq, Eq, Structural)]
pub enum SubSampler {
    /// The engine's embedded default search.
    Tabu,
    /// The entry point of the hardware adapter.
    Hardware,
    /// The trampoline of the callback bridge.
    Trampoline,
}

/// What the opaque context slot of the engine's configuration holds.
#[derive(Clone, Copy, Debug, PartialEq, Eq, Structural)]
pub enum SamplerContext {
    /// Nothing.
    Null,
    /// A reference to the solver the call was made with.
    Solver,
}

/// The engine's configuration struct, field for field.
#[allow(non_camel_case_types)]
#[derive(Clone, Copy, Debug, PartialEq, Eq, Structural)]
pub struct paramaters_t {
    /// Restart budget.
    pub repeats: i32,
    /// Who solves the sub-problems.
    pub sub_sampler: SubSampler,
    /// Number of variables per sub-problem.
    pub sub_size: i32,
    /// What the sub-sampler is handed on each call.
    pub sub_sampler_data: SamplerContext,
}

/// The configuration the engine starts from: 50 repeats, its own local search
/// on sub-problems of 47 variables, no context.
pub fn default_parameters() -> (p: paramaters_t)
    ensures
        p.repeats == DEFAULT_REPEATS,
        p.sub_sampler == SubSampler::Tabu,
        p.sub_size == DEFAULT_SUB_SIZE,
        p.sub_sampler_data == SamplerContext::Null,
{
    paramaters_t {
        repeats: DEFAULT_REPEATS,
        sub_sampler: SubSampler::Tabu,
        sub_size: DEFAULT_SUB_SIZE,
        sub_sampler_data: SamplerContext::Null,
    }
}

impl<T, F> Solver<T, F> {
    /// What the sub-sampler function slot holds for this solver.
    pub open spec fn spec_sub_sampler(&self) -> SubSampler {
        match self {
            Solver::Tabu => SubSampler::Tabu,
            Solver::Dw => SubSampler::Hardware,
            Solver::Callback { .. } => SubSampler::Trampoline,
        }
    }

    /// What the context slot holds for this solver.
    pub open spec fn spec_context(&self) -> SamplerContext {
        match self {
            Solver::Callback { .. } => SamplerContext::Solver,
            _ => SamplerContext::Null,
        }
    }

    /// The sub-problem size this solver works with by itself: the size the
    /// hardware reported for the hardware search, the engine's default for the
    /// others.
    pub open spec fn own_sub_size(&self, hardware: Option<i32>) -> i32 {
        match (self, hardware) {
            (Solver::Dw, Some(size)) => size,
            _ => DEFAULT_SUB_SIZE,
        }
    }

    /// Whether the hardware has to be set up before this solver can run.
    pub fn needs_hardware(&self) -> (b: bool)
        ensures
            b == (self is Dw),
    {
        match self {
            Solver::Dw => true,
            _ => false,
        }
    }

    /// What goes into the sub-sampler function slot for this solver.
    #[verifier::when_used_as_spec(spec_sub_sampler)]
    pub fn sub_sampler(&self) -> (s: SubSampler)
        ensures
            s == self.spec_sub_sampler(),
    {
        match self {
            Solver::Tabu => SubSampler::Tabu,
            Solver::Dw => SubSampler::Hardware,
            Solver::Callback { .. } => SubSampler::Trampoline,
        }
    }

    /// What goes into the context slot for this solver.
    #[verifier::when_used_as_spec(spec_context)]
    pub fn context(&self) -> (c: SamplerContext)
        ensures
            c == self.spec_context(),
    {
        match self {
            Solver::Callback { .. } => SamplerContext::Solver,
            _ => SamplerContext::Null,
        }
    }
}

impl QbsolvParams {
    /// Whether `p` is the engine configuration for this record and `solver`,
    /// where `hardware` is the sub-problem size the hardware set-up reported.
    pub open spec fn parameters_match<T, F>(
        &self,
        solver: &Solver<T, F>,
        hardware: Option<i32>,
        p: paramaters_t,
    ) -> bool {
        &&& p.repeats == signed_low_32(self.num_repeats as int)
        &&& p.sub_sampler == solver.spec_sub_sampler()
        &&& p.sub_sampler_data == solver.spec_context()
        &&& p.sub_size == match self.solver_limit {
            Some(limit) => signed_low_32(limit as int),
            None => solver.own_sub_size(hardware) as int,
        }
    }

    /// Builds the engine's configuration struct for `solver`.
    ///
    /// `hardware` is the outcome of the hardware set-up: the sub-problem size
    /// it reported, or `None` where it was not run or did not succeed. The
    /// hardware search cannot do without it. The record's `solver_limit`,
    /// where present, overrides the sub-problem size of every solver.
    pub fn engine_parameters<T, F>(&self, solver: &Solver<T, F>, hardware: Option<i32>) -> (res:
        Result<paramaters_t, QbsolvError>)
        ensures
            res is Err <==> solver is Dw && hardware is None,
            res is Err ==> res == Err::<paramaters_t, QbsolvError>(QbsolvError::SamplerInitError),
            res matches Ok(p) ==> self.parameters_match(solver, hardware, p),
    {
        let mut params = default_parameters();
        params.repeats = truncate_to_i32(self.num_repeats as u64);
        match solver {
            Solver::Dw => {
                match hardware {
                    Some(size) => {
                        params.sub_size = size;
                    },
                    None => {
                        return Err(QbsolvError::SamplerInitError);
                    },
                }
            },
            _ => {},
        }
        params.sub_sampler = solver.sub_sampler();
        params.sub_sampler_data = solver.context();
        if let Some(limit) = self.solver_limit {
            params.sub_size = truncate_to_i32(limit as u64);
        }
        Ok(params)
    }
}

} // verus!
