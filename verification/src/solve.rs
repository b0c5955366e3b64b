//! Solve orchestrator: everything that is settled before the engine runs, and
//! the reading of its output afterwards.

use vstd::prelude::*;
use crate::encode::{encode, in_bounds, DenseMatrix, Triplet};
use crate::error::QbsolvError;
use crate::extract::{extract, RawOutput, Solution};
use crate::params::{signed_low_32, truncate_to_i32, EngineGlobals, QbsolvParams};
use crate::sampler::{paramaters_t, NoCallback, Solver};
use crate::scalar::Scalar;

verus! {

/// One call of the engine, ready to be made.
#[derive(Clone, Debug)]
pub struct EngineCall {
    /// The process-wide knobs to set before the call.
    pub globals: EngineGlobals,
    /// The configuration struct.
    pub parameters: paramaters_t,
    /// The dense upper-triangular matrix.
    pub matrix: DenseMatrix,
    /// The number of variables, as the engine takes it.
    pub qubo_size: i32,
    /// The number of solution ranks the engine reports.
    pub n_solutions: usize,
    /// The arrays the engine writes its solutions to.
    pub output: RawOutput,
}

impl QbsolvParams {
    /// Whether the buffers of a call over `vals` variables fit the machine.
    pub open spec fn fits(&self, vals: usize) -> bool {
        &&& vals * vals <= usize::MAX
        &&& vals * (self.algorithm.spec_solution_slots() + 1) <= usize::MAX
    }

    /// Whether `call` is the engine call for this record, the problem `q`
    /// over `vals` variables, and `solver`.
    pub open spec fn prepares<T, F>(
        &self,
        q: Seq<Triplet>,
        vals: usize,
        solver: &Solver<T, F>,
        hardware: Option<i32>,
        call: EngineCall,
    ) -> bool {
        &&& self.globals_match(call.globals)
        &&& self.parameters_match(solver, hardware, call.parameters)
        &&& call.matrix.n == vals
        &&& call.matrix.encodes(q, self.find_max)
        &&& call.matrix.upper_triangular()
        &&& call.qubo_size == signed_low_32(vals as int)
        &&& call.n_solutions == self.algorithm.spec_solution_slots()
        &&& call.output.wf(vals, call.n_solutions)
        &&& call.output.blank()
    }

    /// Tells whether the buffers of a call over `vals` variables fit the
    /// machine, which is what `prepare` asks for.
    pub fn check_fits(&self, vals: usize) -> (ok: bool)
        ensures
            ok == self.fits(vals),
    {
        let slots: usize = self.algorithm.solution_slots() + 1;
        vals.checked_mul(vals).is_some() && vals.checked_mul(slots).is_some()
    }

    /// Settles everything the engine needs for one call.
    ///
    /// The problem is encoded first, so a triplet out of range is reported
    /// before anything else. Then the algorithm fixes the number of solution
    /// ranks, the record fixes the process-wide knobs, the solver and the
    /// record together fix the configuration struct, and the output arrays
    /// are allocated, zeroed, with one slot more than there are ranks.
    pub fn prepare<T, F>(
        &self,
        q: &[Triplet],
        vals: usize,
        solver: &Solver<T, F>,
        hardware: Option<i32>,
    ) -> (res: Result<EngineCall, QbsolvError>)
        requires
            self.fits(vals),
        ensures
            !in_bounds(q@, vals as int) ==> res == Err::<EngineCall, QbsolvError>(
                QbsolvError::IndexOutOfBounds,
            ),
            in_bounds(q@, vals as int) && solver is Dw && hardware is None ==> res == Err::<
                EngineCall,
                QbsolvError,
            >(QbsolvError::SamplerInitError),
            in_bounds(q@, vals as int) && !(solver is Dw && hardware is None) ==> res is Ok,
            res matches Ok(call) ==> self.prepares(q@, vals, solver, hardware, call),
    {
        let matrix = match encode(q, vals, self.find_max) {
            Ok(m) => m,
            Err(e) => {
                return Err(e);
            },
        };
        let n_solutions: usize = self.algorithm.solution_slots();
        let globals = self.engine_globals();
        let parameters = match self.engine_parameters(solver, hardware) {
            Ok(p) => p,
            Err(e) => {
                return Err(e);
            },
        };
        let output = RawOutput::allocate(vals, n_solutions);
        Ok(
            EngineCall {
                globals,
                parameters,
                matrix,
                qubo_size: truncate_to_i32(vals as u64),
                n_solutions,
                output,
            },
        )
    }

    /// Whether `engine` can be handed every call `prepare` may come up with,
    /// and hands back arrays that can be read.
    pub open spec fn engine_ready<T, F, E: FnOnce(EngineCall, &Solver<T, F>) -> RawOutput>(
        &self,
        q: Seq<Triplet>,
        vals: usize,
        solver: &Solver<T, F>,
        hardware: Option<i32>,
        engine: E,
    ) -> bool {
        &&& forall|call: EngineCall|
            self.prepares(q, vals, solver, hardware, call) ==> call_requires(
                engine,
                (call, solver),
            )
        &&& forall|call: EngineCall, output: RawOutput|
            self.prepares(q, vals, solver, hardware, call) && call_ensures(
                engine,
                (call, solver),
                output,
            ) ==> output.wf(vals, self.algorithm.spec_solution_slots()) && output.readable(
                self.algorithm.spec_solution_slots(),
            )
    }

    /// Whether `found` is a possible result of the solve call: the engine
    /// was handed the prepared call and the solver, and `found` is what its
    /// output holds.
    pub open spec fn runs_to<T, F, E: FnOnce(EngineCall, &Solver<T, F>) -> RawOutput>(
        &self,
        q: Seq<Triplet>,
        vals: usize,
        solver: &Solver<T, F>,
        hardware: Option<i32>,
        engine: E,
        found: Seq<Solution>,
    ) -> bool {
        exists|call: EngineCall, output: RawOutput|
            self.prepares(q, vals, solver, hardware, call) && call_ensures(
                engine,
                (call, solver),
                output,
            ) && output.extracts_to(
                vals,
                self.algorithm.spec_solution_slots(),
                self.find_max,
                found,
            )
    }

    /// Whether `res` is a possible outcome of the solve call.
    ///
    /// A triplet out of range fails the call before anything else, a hardware
    /// solver without hardware fails it next, and neither lets the engine
    /// run. Every other call succeeds with what the engine's output holds.
    pub open spec fn solves<T, F, E: FnOnce(EngineCall, &Solver<T, F>) -> RawOutput>(
        &self,
        q: Seq<Triplet>,
        vals: usize,
        solver: &Solver<T, F>,
        hardware: Option<i32>,
        engine: E,
        res: Result<Vec<Solution>, QbsolvError>,
    ) -> bool {
        if !in_bounds(q, vals as int) {
            res == Err::<Vec<Solution>, QbsolvError>(QbsolvError::IndexOutOfBounds)
        } else if solver is Dw && hardware is None {
            res == Err::<Vec<Solution>, QbsolvError>(QbsolvError::SamplerInitError)
        } else {
            res matches Ok(found) && self.runs_to(q, vals, solver, hardware, engine, found@)
        }
    }

    /// One solve call from end to end, with the engine as a parameter.
    ///
    /// Prepares the call, runs `engine` on it exactly once together with the
    /// solver, which stays where it is for as long as the engine runs, and
    /// reads the solutions out of what the engine hands back.
    pub fn run<T, F, E: FnOnce(EngineCall, &Solver<T, F>) -> RawOutput>(
        &self,
        q: &[Triplet],
        vals: usize,
        solver: &Solver<T, F>,
        hardware: Option<i32>,
        engine: E,
    ) -> (res: Result<Vec<Solution>, QbsolvError>)
        requires
            self.fits(vals),
            self.engine_ready(q@, vals, solver, hardware, engine),
        ensures
            self.solves(q@, vals, solver, hardware, engine, res),
    {
        let call = match self.prepare(q, vals, solver, hardware) {
            Ok(call) => call,
            Err(e) => {
                return Err(e);
            },
        };
        let ghost handed = call;
        let output = engine(call, solver);
        let found = self.collect(&output, vals);
        assert(self.prepares(q@, vals, solver, hardware, handed) && call_ensures(
            engine,
            (handed, solver),
            output,
        ) && output.extracts_to(
            vals,
            self.algorithm.spec_solution_slots(),
            self.find_max,
            found@,
        ));
        Ok(found)
    }

    /// Solve with the engine's built-in local search.
    pub fn run_internal<E: FnOnce(EngineCall, &Solver<(), NoCallback>) -> RawOutput>(
        &self,
        q: &[Triplet],
        vals: usize,
        engine: E,
    ) -> (res: Result<Vec<Solution>, QbsolvError>)
        requires
            self.fits(vals),
            self.engine_ready(q@, vals, &Solver::<(), NoCallback>::Tabu, None, engine),
        ensures
            self.solves(q@, vals, &Solver::<(), NoCallback>::Tabu, None, engine, res),
    {
        let solver: Solver<(), NoCallback> = Solver::Tabu;
        self.run(q, vals, &solver, None, engine)
    }

    /// Solve with the built-in search on specialised hardware, which
    /// `hardware` is the set-up outcome of: the sub-problem size it reported,
    /// or `None` where there is none to be had.
    pub fn run_dwave<E: FnOnce(EngineCall, &Solver<(), NoCallback>) -> RawOutput>(
        &self,
        q: &[Triplet],
        vals: usize,
        hardware: Option<i32>,
        engine: E,
    ) -> (res: Result<Vec<Solution>, QbsolvError>)
        requires
            self.fits(vals),
            self.engine_ready(q@, vals, &Solver::<(), NoCallback>::Dw, hardware, engine),
        ensures
            self.solves(q@, vals, &Solver::<(), NoCallback>::Dw, hardware, engine, res),
    {
        let solver: Solver<(), NoCallback> = Solver::Dw;
        self.run(q, vals, &solver, hardware, engine)
    }

    /// Solve with a callback for the sub-problems.
    ///
    /// The callback and its data are held here for the whole call; the engine
    /// reaches them through the solver it is handed.
    pub fn run_with_callback<
        T,
        F: Fn(&[&[Scalar]], usize, &T) -> Vec<bool>,
        E: FnOnce(EngineCall, &Solver<T, F>) -> RawOutput,
    >(&self, q: &[Triplet], vals: usize, callback: F, data: T, engine: E) -> (res: Result<
        Vec<Solution>,
        QbsolvError,
    >)
        requires
            self.fits(vals),
            self.engine_ready(q@, vals, &(Solver::Callback { callback, data }), None, engine),
        ensures
            self.solves(q@, vals, &(Solver::Callback { callback, data }), None, engine, res),
    {
        let solver = Solver::Callback { callback, data };
        self.run(q, vals, &solver, None, engine)
    }

    /// Reads the solutions out of the arrays the engine has filled, best
    /// first, with the energies back in the caller's sign convention.
    pub fn collect(&self, output: &RawOutput, vals: usize) -> (out: Vec<Solution>)
        requires
            output.wf(vals, self.algorithm.spec_solution_slots()),
            output.readable(self.algorithm.spec_solution_slots()),
        ensures
            output.extracts_to(vals, self.algorithm.spec_solution_slots(), self.find_max, out@),
    {
        extract(output, vals, self.algorithm.solution_slots(), self.find_max)
    }
}

} // verus!
