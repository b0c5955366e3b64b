use qbsolv::error::QbsolvError;
use qbsolv::extract::RawOutput;
use qbsolv::params::{Algorithm, QbsolvParams};
use qbsolv::sampler::{NoCallback, SamplerContext, Solver, SubSampler};
use qbsolv::scalar::Scalar;
use qbsolv::solve::EngineCall;

fn s(x: f64) -> Scalar {
    Scalar::from_bits(x.to_bits())
}

fn f(x: Scalar) -> f64 {
    f64::from_bits(x.to_bits())
}

fn problem(q: &[(usize, usize, f64)]) -> Vec<(usize, usize, Scalar)> {
    q.iter().map(|t| (t.0, t.1, s(t.2))).collect()
}

/// The value of the quadratic form of `call`'s matrix at `x`.
fn energy(call: &EngineCall, x: &[bool]) -> f64 {
    let n = call.matrix.n;
    let mut sum = 0.0;
    for r in 0..n {
        for c in 0..n {
            if x[r] && x[c] {
                sum += f(call.matrix.cells[r * n + c]);
            }
        }
    }
    sum
}

/// An engine that tries every assignment and ranks them by the value of the
/// matrix it was given, largest first. A set variable is written as a one.
fn exhaustive(call: EngineCall) -> RawOutput {
    let n = call.matrix.n;
    let mut all: Vec<(f64, Vec<bool>)> = (0..1usize << n)
        .map(|code| (0..n).map(|i| code >> i & 1 == 1).collect::<Vec<bool>>())
        .map(|x| (energy(&call, &x), x))
        .collect();
    all.sort_by(|a, b| b.0.partial_cmp(&a.0).unwrap());
    let mut out = call.output;
    for (slot, (value, x)) in all.iter().take(call.n_solutions).enumerate() {
        for i in 0..n {
            out.solution_list[slot * n + i] = x[i] as i8;
        }
        out.energy_list[slot] = s(*value);
        out.solution_counts[slot] = 1;
    }
    for (rank, slot) in out.q_index.iter_mut().enumerate() {
        *slot = rank as i32;
    }
    out
}

/// An engine that hands the whole matrix to the solver as one sub-problem
/// and reports the answer as its only solution.
fn one_sub_problem<T, F>(call: EngineCall, solver: &Solver<T, F>) -> RawOutput
where
    F: Fn(&[&[Scalar]], usize, &T) -> Vec<bool>,
{
    let n = call.matrix.n;
    let mut out = call.output.clone();
    if let Ok(bytes) = solver.sub_sample(&call.matrix.cells, n) {
        let x: Vec<bool> = bytes.iter().map(|b| *b == 1).collect();
        out.solution_list[..n].copy_from_slice(&bytes);
        out.energy_list[0] = s(energy(&call, &x));
        out.solution_counts[0] = 1;
    }
    for (rank, slot) in out.q_index.iter_mut().enumerate() {
        *slot = rank as i32;
    }
    out
}

fn positive_diagonal(rows: &[&[Scalar]], m: usize, bonus: &f64) -> Vec<bool> {
    (0..m).map(|i| f(rows[i][i]) + *bonus > 0.0).collect()
}

fn too_short(_rows: &[&[Scalar]], m: usize, _data: &()) -> Vec<bool> {
    vec![true; m - 1]
}

#[test]
fn the_engine_is_handed_the_prepared_call() {
    let mut p = QbsolvParams::new();
    p.num_repeats = 9;
    p.solver_limit = Some(30);
    let q = problem(&[(0, 1, 1.0), (2, 0, -4.0)]);
    let mut seen: Option<EngineCall> = None;
    let mut kind = "";
    let found = p
        .run_internal(&q, 3, |call: EngineCall, solver: &Solver<(), NoCallback>| {
            kind = if matches!(solver, Solver::Tabu) { "tabu" } else { "other" };
            seen = Some(call.clone());
            call.output
        })
        .unwrap();
    assert!(found.is_empty());
    assert_eq!(kind, "tabu");
    let call = seen.unwrap();
    assert_eq!(call.qubo_size, 3);
    assert_eq!(call.n_solutions, 20);
    assert_eq!(call.parameters.repeats, 9);
    assert_eq!(call.parameters.sub_size, 30);
    assert_eq!(call.parameters.sub_sampler, SubSampler::Tabu);
    assert_eq!(call.parameters.sub_sampler_data, SamplerContext::Null);
    assert_eq!(
        call.matrix.cells.iter().map(|c| f(*c)).collect::<Vec<f64>>(),
        vec![0.0, -1.0, 4.0, 0.0, 0.0, 0.0, 0.0, 0.0, 0.0]
    );
    assert_eq!(call.output.solution_list.len(), 63);
    assert_eq!(call.globals.seed, 753338078);
}

#[test]
fn minimising_returns_the_smallest_energy_first() {
    let p = QbsolvParams::new();
    let q = problem(&[(0, 0, 1.0), (1, 1, -3.0), (2, 2, 2.0), (0, 1, 1.5), (2, 1, 0.5)]);
    let found = p.run_internal(&q, 3, |call, _solver| exhaustive(call)).unwrap();
    assert_eq!(found.len(), 8);
    let energies: Vec<f64> = found.iter().map(|e| f(e.1)).collect();
    assert_eq!(energies, vec![-3.0, -0.5, -0.5, 0.0, 1.0, 2.0, 2.0, 3.0]);
    // A one of the engine comes back as `false`: only the second variable is set.
    assert_eq!(found[0].0, vec![true, false, true]);
    assert_eq!(found[3].0, vec![true, true, true]);
    assert!(found.iter().all(|e| e.2 == 1 && e.0.len() == 3));
}

#[test]
fn maximising_returns_the_largest_energy_first() {
    let mut p = QbsolvParams::new();
    p.find_max = true;
    let q = problem(&[(0, 0, 1.0), (1, 1, -3.0), (2, 2, 2.0), (0, 1, 1.5), (2, 1, 0.5)]);
    let found = p.run_internal(&q, 3, |call, _solver| exhaustive(call)).unwrap();
    let energies: Vec<f64> = found.iter().map(|e| f(e.1)).collect();
    assert_eq!(energies, vec![3.0, 2.0, 2.0, 1.0, 0.0, -0.5, -0.5, -3.0]);
    assert_eq!(found[0].0, vec![false, true, false]);
}

#[test]
fn more_assignments_than_ranks() {
    let mut p = QbsolvParams::new();
    let q = problem(&[(0, 0, 1.0), (1, 1, 2.0), (2, 2, 4.0), (3, 3, 8.0), (4, 4, 16.0)]);
    let found = p.run_internal(&q, 5, |call, _solver| exhaustive(call)).unwrap();
    assert_eq!(found.len(), 20);
    let energies: Vec<f64> = found.iter().map(|e| f(e.1)).collect();
    assert_eq!(energies, (0..20).map(|i| i as f64).collect::<Vec<f64>>());
    p.algorithm = Algorithm::SolutionDiversity;
    let found = p.run_internal(&q, 5, |call, _solver| exhaustive(call)).unwrap();
    assert_eq!(found.len(), 32);
}

#[test]
fn the_callback_answers_for_the_engine() {
    let p = QbsolvParams::new();
    let q = problem(&[(0, 0, -1.0), (1, 1, 2.0), (2, 2, -0.25), (0, 2, 7.0)]);
    let found =
        p.run_with_callback(&q, 3, positive_diagonal, 0.5f64, one_sub_problem).unwrap();
    // The matrix holds the negated problem: 1, -2 and 0.25 on the diagonal.
    // With the bonus of 0.5 the callback sets the first and the third variable.
    assert_eq!(found.len(), 1);
    assert_eq!(found[0].0, vec![false, true, false]);
    assert_eq!(f(found[0].1), -(1.0 + 0.25 - 7.0));
    assert_eq!(found[0].2, 1);
}

#[test]
fn the_callback_solver_reaches_the_engine_with_its_context() {
    let p = QbsolvParams::new();
    let mut slots = None;
    p.run_with_callback(&[], 1, positive_diagonal, 0.0f64, |call: EngineCall, solver: &Solver<f64, _>| {
        slots = Some((call.parameters.sub_sampler, call.parameters.sub_sampler_data));
        assert!(matches!(solver, Solver::Callback { data, .. } if *data == 0.0));
        call.output
    })
    .unwrap();
    assert_eq!(slots, Some((SubSampler::Trampoline, SamplerContext::Solver)));
}

#[test]
fn a_short_answer_never_becomes_a_solution() {
    let p = QbsolvParams::new();
    let q = problem(&[(0, 0, -1.0), (1, 1, 2.0)]);
    let mut fault = None;
    let found = p
        .run_with_callback(&q, 2, too_short, (), |call: EngineCall, solver: &Solver<(), _>| {
            fault = solver.sub_sample(&call.matrix.cells, 2).err();
            one_sub_problem(call, solver)
        })
        .unwrap();
    assert_eq!(fault, Some(QbsolvError::ResultArityMismatch));
    assert!(found.is_empty());
}

#[test]
fn hardware_search_runs_with_the_reported_size() {
    let p = QbsolvParams::new();
    let mut seen = None;
    let found = p
        .run_dwave(&[], 2, Some(64), |call: EngineCall, solver: &Solver<(), NoCallback>| {
            seen = Some((call.parameters, matches!(solver, Solver::Dw)));
            call.output
        })
        .unwrap();
    assert!(found.is_empty());
    let (parameters, is_dw) = seen.unwrap();
    assert!(is_dw);
    assert_eq!(parameters.sub_sampler, SubSampler::Hardware);
    assert_eq!(parameters.sub_sampler_data, SamplerContext::Null);
    assert_eq!(parameters.sub_size, 64);
    assert_eq!(parameters.repeats, 50);
}

#[test]
fn faults_keep_the_engine_from_running() {
    let p = QbsolvParams::new();
    let mut ran = 0;
    let res = p.run_dwave(&[], 2, None, |call: EngineCall, _solver: &Solver<(), NoCallback>| {
        ran += 1;
        call.output
    });
    assert_eq!(res, Err(QbsolvError::SamplerInitError));
    let q = problem(&[(0, 2, 1.0)]);
    let res = p.run_internal(&q, 2, |call: EngineCall, _solver: &Solver<(), NoCallback>| {
        ran += 1;
        call.output
    });
    assert_eq!(res, Err(QbsolvError::IndexOutOfBounds));
    let res = p.run_dwave(&q, 2, None, |call: EngineCall, _solver: &Solver<(), NoCallback>| {
        ran += 1;
        call.output
    });
    assert_eq!(res, Err(QbsolvError::IndexOutOfBounds));
    let res = p.run_with_callback(&q, 2, too_short, (), |call: EngineCall, _solver: &Solver<(), _>| {
        ran += 1;
        call.output
    });
    assert_eq!(res, Err(QbsolvError::IndexOutOfBounds));
    assert_eq!(ran, 0);
}
