//! Callback bridge: what happens between the engine asking for a sub-problem
//! to be solved and the caller's callback answering.

use vstd::prelude::*;
use vstd::slice::slice_subrange;
use crate::error::QbsolvError;
use crate::extract::decoded_bits;
use crate::sampler::Solver;
use crate::scalar::Scalar;

verus! {

/// Whether `rows` are the `m` rows of the flat `m` by `m` matrix `sub_qubo`.
pub open spec fn is_row_split(rows: Seq<&[Scalar]>, sub_qubo: Seq<Scalar>, m: int) -> bool {
    &&& rows.len() == m
    &&& forall|i: int|
        0 <= i < m ==> (#[trigger] rows[i])@ == sub_qubo.subrange(i * m, (i + 1) * m)
}

/// The bytes the engine is handed for an assignment: one for `true`, zero for
/// `false`.
pub open spec fn solution_bytes(assignment: Seq<bool>) -> Seq<i8> {
    Seq::new(
        assignment.len(),
        |i: int|
            if assignment[i] {
                1i8
            } else {
                0i8
            },
    )
}

/// Whether `res` is what the bridge hands on for the callback's `answer` to a
/// sub-problem of `m` variables: the answer's bytes where it has `m` entries,
/// an arity fault where it has not.
pub open spec fn bridges(answer: Seq<bool>, m: int, res: Result<Vec<i8>, QbsolvError>) -> bool {
    if answer.len() == m {
        res matches Ok(bytes) && bytes@ == solution_bytes(answer)
    } else {
        res == Err::<Vec<i8>, QbsolvError>(QbsolvError::ResultArityMismatch)
    }
}

/// The rows of a flat matrix lie inside it.
pub proof fn lemma_row_in_range(i: int, m: int)
    by (nonlinear_arith)
    requires
        0 <= i < m,
    ensures
        0 <= i * m,
        (i + 1) * m == i * m + m,
        (i + 1) * m <= m * m,
{
}

/// Splits the flat `m` by `m` sub-matrix into its `m` rows, without copying.
pub fn sub_matrix_rows<'a>(sub_qubo: &'a [Scalar], m: usize) -> (rows: Vec<&'a [Scalar]>)
    requires
        sub_qubo@.len() == m * m,
    ensures
        is_row_split(rows@, sub_qubo@, m as int),
{
    let total: usize = sub_qubo.len();
    let mut rows: Vec<&'a [Scalar]> = Vec::new();
    let mut i: usize = 0;
    while i < m
        invariant
            i <= m,
            total == m * m,
            total == sub_qubo@.len(),
            rows@.len() == i,
            forall|k: int|
                0 <= k < i ==> (#[trigger] rows@[k])@ == sub_qubo@.subrange(k * m, (k + 1) * m),
        decreases m - i,
    {
        proof {
            lemma_row_in_range(i as int, m as int);
        }
        let start: usize = i * m;
        let row = slice_subrange(sub_qubo, start, start + m);
        rows.push(row);
        i += 1;
    }
    rows
}

/// Turns the callback's answer into the bytes the engine takes, after checking
/// that it has one entry per variable of the sub-problem.
pub fn sub_solution_bytes(answer: &[bool], m: usize) -> (res: Result<Vec<i8>, QbsolvError>)
    ensures
        res is Ok <==> answer@.len() == m,
        bridges(answer@, m as int, res),
{
    if answer.len() != m {
        return Err(QbsolvError::ResultArityMismatch);
    }
    let mut bytes: Vec<i8> = Vec::new();
    let mut i: usize = 0;
    while i < m
        invariant
            i <= m,
            answer@.len() == m,
            bytes@.len() == i,
            forall|k: int|
                0 <= k < i ==> bytes@[k] == (if answer@[k] {
                    1i8
                } else {
                    0i8
                }),
        decreases m - i,
    {
        bytes.push(if answer[i] { 1i8 } else { 0i8 });
        i += 1;
    }
    assert(bytes@ =~= solution_bytes(answer@));
    Ok(bytes)
}

impl<T, F: Fn(&[&[Scalar]], usize, &T) -> Vec<bool>> Solver<T, F> {
    /// Whether the callback of this solver may be called on every row split
    /// of `sub_qubo`.
    pub open spec fn accepts(&self, sub_qubo: Seq<Scalar>, m: usize) -> bool {
        self matches Solver::Callback { callback, data } ==> forall|rows: &[&[Scalar]]|
            is_row_split(rows@, sub_qubo, m as int) ==> call_requires(
                *callback,
                (rows, m, data),
            )
    }

    /// Whether `res` is a possible outcome of handing the sub-problem to this
    /// solver through the bridge.
    pub open spec fn answers(
        &self,
        sub_qubo: Seq<Scalar>,
        m: usize,
        res: Result<Vec<i8>, QbsolvError>,
    ) -> bool {
        match self {
            Solver::Callback { callback, data } => exists|rows: &[&[Scalar]], answer: Vec<bool>|
                is_row_split(rows@, sub_qubo, m as int) && call_ensures(
                    *callback,
                    (rows, m, data),
                    answer,
                ) && bridges(answer@, m as int, res),
            _ => res == Err::<Vec<i8>, QbsolvError>(QbsolvError::BridgeInvariantViolation),
        }
    }

    /// Solves one sub-problem on behalf of the engine.
    ///
    /// The flat `m` by `m` sub-matrix is handed to the callback as `m` rows,
    /// together with `m` and the caller's data. An answer of `m` booleans
    /// comes back as `m` bytes, one for `true` and zero for `false`. An answer
    /// of any other length is an arity fault, and a solver without a callback
    /// has no business here at all.
    pub fn sub_sample(&self, sub_qubo: &[Scalar], m: usize) -> (res: Result<Vec<i8>, QbsolvError>)
        requires
            sub_qubo@.len() == m * m,
            self.accepts(sub_qubo@, m),
        ensures
            self.answers(sub_qubo@, m, res),
    {
        match self {
            Solver::Callback { callback, data } => {
                let rows = sub_matrix_rows(sub_qubo, m);
                let answer = callback(rows.as_slice(), m, data);
                let res = sub_solution_bytes(answer.as_slice(), m);
                assert(self.answers(sub_qubo@, m, res));
                res
            },
            _ => Err(QbsolvError::BridgeInvariantViolation),
        }
    }
}

/// The two directions of the boundary read a byte differently: the bridge
/// writes a one for `true`, the extractor reads a zero as `true`. So an answer
/// that the engine reports back unchanged returns with every boolean turned
/// over.
pub proof fn lemma_answer_reads_back_inverted(answer: Seq<bool>)
    ensures
        decoded_bits(solution_bytes(answer)) == Seq::new(answer.len(), |i: int| !answer[i]),
{
    assert(decoded_bits(solution_bytes(answer)) =~= Seq::new(answer.len(), |i: int| !answer[i]));
}

} // verus!
