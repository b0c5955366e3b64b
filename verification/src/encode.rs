//! Problem encoder: sparse triplets to the dense upper-triangular matrix.

use vstd::prelude::*;
use crate::error::QbsolvError;
use crate::scalar::Scalar;

verus! {

/// One weighted pair interaction: row, column, coefficient.
pub type Triplet = (usize, usize, Scalar);

/// The row of the cell a triplet is stored in: the smaller of its two indices.
pub open spec fn cell_row(t: Triplet) -> int {
    if t.1 < t.0 {
        t.1 as int
    } else {
        t.0 as int
    }
}

/// The column of the cell a triplet is stored in: the larger of its two indices.
pub open spec fn cell_col(t: Triplet) -> int {
    if t.1 < t.0 {
        t.0 as int
    } else {
        t.1 as int
    }
}

/// Whether a triplet is stored in cell `(r, c)`.
pub open spec fn writes_to(t: Triplet, r: int, c: int) -> bool {
    cell_row(t) == r && cell_col(t) == c
}

/// Whether both indices of every triplet lie below `n`.
pub open spec fn in_bounds(q: Seq<Triplet>, n: int) -> bool {
    forall|k: int| 0 <= k < q.len() ==> (#[trigger] q[k]).0 < n && q[k].1 < n
}

/// What cell `(r, c)` holds after the triplets of `q` were stored in order:
/// the sign-adjusted coefficient of the last triplet stored there, or zero
/// where none was.
pub open spec fn encoded_cell(q: Seq<Triplet>, find_max: bool, r: int, c: int) -> Scalar
    decreases q.len(),
{
    if q.len() == 0 {
        Scalar::zero()
    } else if writes_to(q.last(), r, c) {
        q.last().2.oriented(find_max)
    } else {
        encoded_cell(q.drop_last(), find_max, r, c)
    }
}

/// An `n` by `n` matrix in row-major order.
#[derive(Clone, Debug)]
pub struct DenseMatrix {
    pub n: usize,
    pub cells: Vec<Scalar>,
}

impl DenseMatrix {
    /// The buffer holds exactly `n * n` cells, a number that fits the machine.
    pub open spec fn wf(&self) -> bool {
        &&& self.n * self.n <= usize::MAX
        &&& self.cells@.len() == self.n * self.n
    }

    /// The cell in row `r`, column `c`.
    pub open spec fn cell(&self, r: int, c: int) -> Scalar {
        self.cells@[r * self.n + c]
    }

    /// Whether the matrix is what encoding `q` produces.
    pub open spec fn encodes(&self, q: Seq<Triplet>, find_max: bool) -> bool {
        &&& self.wf()
        &&& forall|r: int, c: int|
            0 <= r < self.n && 0 <= c < self.n ==> #[trigger] self.cell(r, c) == encoded_cell(
                q,
                find_max,
                r,
                c,
            )
    }

    /// Whether every cell below the diagonal is zero.
    pub open spec fn upper_triangular(&self) -> bool {
        forall|r: int, c: int|
            0 <= c < r < self.n ==> #[trigger] self.cell(r, c) == Scalar::zero()
    }

    /// Reads one cell.
    pub fn get(&self, r: usize, c: usize) -> (x: Scalar)
        requires
            self.wf(),
            r < self.n,
            c < self.n,
        ensures
            x == self.cell(r as int, c as int),
    {
        proof {
            lemma_flat_index(r as int, c as int, self.n as int);
            assert(0 <= r * self.n <= r * self.n + c < self.n * self.n) by (nonlinear_arith)
                requires
                    0 <= r < self.n,
                    0 <= c < self.n,
            ;
        }
        self.cells[r * self.n + c]
    }
}

/// A row and a column below `n` give a flat index below `n * n`, and that
/// index gives the row and the column back.
pub proof fn lemma_flat_index(r: int, c: int, n: int)
    by (nonlinear_arith)
    requires
        0 <= r < n,
        0 <= c < n,
    ensures
        0 <= r * n + c < n * n,
        (r * n + c) / n == r,
        (r * n + c) % n == c,
{
}

/// Two cells with the same flat index are the same cell.
pub proof fn lemma_flat_index_injective(r1: int, c1: int, r2: int, c2: int, n: int)
    requires
        0 <= r1 < n,
        0 <= c1 < n,
        0 <= r2 < n,
        0 <= c2 < n,
        r1 * n + c1 == r2 * n + c2,
    ensures
        r1 == r2,
        c1 == c2,
{
    lemma_flat_index(r1, c1, n);
    lemma_flat_index(r2, c2, n);
}

/// Encodes the sparse problem `q` over `vals` variables.
///
/// Each triplet `(u, v, bias)` is stored at row `min(u, v)`, column
/// `max(u, v)`, multiplied by `+1` when maximising and by `-1` when minimising.
/// A later triplet for the same cell replaces an earlier one. Cells that no
/// triplet names stay zero. A triplet with an index of `vals` or more makes
/// the whole encoding fail.
pub fn encode(q: &[Triplet], vals: usize, find_max: bool) -> (res: Result<DenseMatrix, QbsolvError>)
    requires
        vals * vals <= usize::MAX,
    ensures
        res is Ok <==> in_bounds(q@, vals as int),
        res is Err ==> res == Err::<DenseMatrix, QbsolvError>(QbsolvError::IndexOutOfBounds),
        res matches Ok(m) ==> m.n == vals && m.encodes(q@, find_max) && m.upper_triangular(),
{
    let size: usize = vals * vals;
    let mut cells: Vec<Scalar> = Vec::new();
    let mut i: usize = 0;
    while i < size
        invariant
            i <= size,
            cells@.len() == i,
            forall|j: int| 0 <= j < i ==> cells@[j] == Scalar::zero(),
        decreases size - i,
    {
        cells.push(Scalar::zero());
        i += 1;
    }
    proof {
        assert forall|r: int, c: int| 0 <= r < vals && 0 <= c < vals implies #[trigger] cells@[r
            * vals + c] == encoded_cell(q@.take(0), find_max, r, c) by {
            lemma_flat_index(r, c, vals as int);
        }
    }
    let mut k: usize = 0;
    while k < q.len()
        invariant
            k <= q.len(),
            size == vals * vals,
            cells@.len() == size,
            in_bounds(q@.take(k as int), vals as int),
            forall|r: int, c: int|
                0 <= r < vals && 0 <= c < vals ==> #[trigger] cells@[r * vals + c] == encoded_cell(
                    q@.take(k as int),
                    find_max,
                    r,
                    c,
                ),
        decreases q.len() - k,
    {
        let (u, v, bias) = q[k];
        if u >= vals || v >= vals {
            assert(!(q@[k as int].0 < vals && q@[k as int].1 < vals));
            return Err(QbsolvError::IndexOutOfBounds);
        }
        let row: usize = if v < u { v } else { u };
        let col: usize = if v < u { u } else { v };
        proof {
            lemma_flat_index(row as int, col as int, vals as int);
        }
        let ghost before = cells@;
        cells.set(row * vals + col, bias.oriented(find_max));
        proof {
            let prev = q@.take(k as int);
            let next = q@.take(k as int + 1);
            assert(next.drop_last() =~= prev);
            assert(next.last() == q@[k as int]);
            assert forall|j: int| 0 <= j < next.len() implies (#[trigger] next[j]).0 < vals
                && next[j].1 < vals by {
                if j < k {
                    assert(prev[j] == next[j]);
                }
            }
            assert forall|r: int, c: int| 0 <= r < vals && 0 <= c < vals implies #[trigger] cells@[r
                * vals + c] == encoded_cell(next, find_max, r, c) by {
                lemma_flat_index(r, c, vals as int);
                if r * vals + c == row * vals + col {
                    lemma_flat_index_injective(r, c, row as int, col as int, vals as int);
                } else {
                    assert(cells@[r * vals + c] == before[r * vals + c]);
                }
            }
        }
        k += 1;
    }
    assert(q@.take(k as int) =~= q@);
    let m = DenseMatrix { n: vals, cells };
    proof {
        assert forall|r: int, c: int| 0 <= c < r < m.n implies #[trigger] m.cell(r, c)
            == Scalar::zero() by {
            lemma_lower_cells_zero(q@, find_max, r, c);
        }
    }
    Ok(m)
}

/// No triplet is ever stored below the diagonal.
pub proof fn lemma_lower_cells_zero(q: Seq<Triplet>, find_max: bool, r: int, c: int)
    requires
        c < r,
    ensures
        encoded_cell(q, find_max, r, c) == Scalar::zero(),
    decreases q.len(),
{
    if q.len() > 0 {
        lemma_lower_cells_zero(q.drop_last(), find_max, r, c);
    }
}

/// The triplet with row and column exchanged.
pub open spec fn mirrored(t: Triplet) -> Triplet {
    (t.1, t.0, t.2)
}

/// Whether some triplet of `q` is stored in cell `(r, c)`.
pub open spec fn written(q: Seq<Triplet>, r: int, c: int) -> bool {
    exists|k: int| 0 <= k < q.len() && writes_to(#[trigger] q[k], r, c)
}

/// A triplet and its mirror image are stored in the same cell: the one whose
/// row is the smaller and whose column is the larger of the two indices.
pub proof fn lemma_mirrored_same_cell(t: Triplet)
    ensures
        cell_row(mirrored(t)) == cell_row(t),
        cell_col(mirrored(t)) == cell_col(t),
        cell_row(t) <= cell_col(t),
        cell_row(t) == t.0 || cell_row(t) == t.1,
        cell_col(t) == t.0 || cell_col(t) == t.1,
        forall|r: int, c: int| writes_to(mirrored(t), r, c) == writes_to(t, r, c),
{
}

/// Encoding `(u, v, b)` alone and encoding `(v, u, b)` alone give the same
/// matrix: the sign-adjusted `b` in cell `(min(u, v), max(u, v))` and zero
/// everywhere else.
pub proof fn lemma_encode_mirrored_alone(t: Triplet, find_max: bool, r: int, c: int)
    ensures
        encoded_cell(seq![mirrored(t)], find_max, r, c) == encoded_cell(seq![t], find_max, r, c),
        encoded_cell(seq![t], find_max, cell_row(t), cell_col(t)) == t.2.oriented(find_max),
        !writes_to(t, r, c) ==> encoded_cell(seq![t], find_max, r, c) == Scalar::zero(),
{
    reveal_with_fuel(encoded_cell, 2);
    assert(seq![t].last() == t);
    assert(seq![mirrored(t)].last() == mirrored(t));
    assert(seq![t].drop_last().len() == 0);
    assert(seq![mirrored(t)].drop_last().len() == 0);
}

/// Exchanging row and column of any one triplet of a problem leaves every
/// cell of the encoding as it was.
pub proof fn lemma_encode_mirrored(q: Seq<Triplet>, k: int, find_max: bool, r: int, c: int)
    requires
        0 <= k < q.len(),
    ensures
        encoded_cell(q.update(k, mirrored(q[k])), find_max, r, c) == encoded_cell(
            q,
            find_max,
            r,
            c,
        ),
    decreases q.len(),
{
    let p = q.update(k, mirrored(q[k]));
    if k == q.len() - 1 {
        assert(p.last() == mirrored(q.last()));
        assert(p.drop_last() =~= q.drop_last());
    } else {
        assert(p.last() == q.last());
        assert(p.drop_last() =~= q.drop_last().update(k, mirrored(q.drop_last()[k])));
        lemma_encode_mirrored(q.drop_last(), k, find_max, r, c);
    }
}

/// Last write wins: a cell holds the sign-adjusted coefficient of the last
/// triplet stored in it, whatever was stored there before.
pub proof fn lemma_last_write_wins(q: Seq<Triplet>, k: int, find_max: bool, r: int, c: int)
    requires
        0 <= k < q.len(),
        writes_to(q[k], r, c),
        forall|j: int| k < j < q.len() ==> !writes_to(#[trigger] q[j], r, c),
    ensures
        encoded_cell(q, find_max, r, c) == q[k].2.oriented(find_max),
    decreases q.len(),
{
    if k < q.len() - 1 {
        assert(!writes_to(q[q.len() - 1], r, c));
        let rest = q.drop_last();
        assert forall|j: int| k < j < rest.len() implies !writes_to(#[trigger] rest[j], r, c) by {
            assert(rest[j] == q[j]);
        }
        lemma_last_write_wins(rest, k, find_max, r, c);
    }
}

/// A cell that no triplet is stored in holds zero.
pub proof fn lemma_unwritten_cell_zero(q: Seq<Triplet>, find_max: bool, r: int, c: int)
    requires
        !written(q, r, c),
    ensures
        encoded_cell(q, find_max, r, c) == Scalar::zero(),
    decreases q.len(),
{
    if q.len() > 0 {
        assert(!writes_to(q[q.len() - 1], r, c));
        let rest = q.drop_last();
        assert forall|j: int| 0 <= j < rest.len() implies !writes_to(#[trigger] rest[j], r, c) by {
            assert(rest[j] == q[j]);
        }
        lemma_unwritten_cell_zero(rest, find_max, r, c);
    }
}

/// The two optimisation senses give encodings that differ exactly by the sign
/// of every cell a triplet is stored in.
pub proof fn lemma_encode_senses(q: Seq<Triplet>, r: int, c: int)
    requires
        written(q, r, c),
    ensures
        encoded_cell(q, true, r, c) == encoded_cell(q, false, r, c).negated(),
        encoded_cell(q, false, r, c) == encoded_cell(q, true, r, c).negated(),
    decreases q.len(),
{
    if !writes_to(q.last(), r, c) {
        let k = choose|k: int| 0 <= k < q.len() && writes_to(#[trigger] q[k], r, c);
        let rest = q.drop_last();
        assert(rest[k] == q[k]);
        lemma_encode_senses(rest, r, c);
    }
}

/// The contract of `encode` leaves no choice: two matrices of the same size
/// that encode the same problem hold the same cells.
pub proof fn lemma_encoding_unique(a: DenseMatrix, b: DenseMatrix, q: Seq<Triplet>, find_max: bool)
    requires
        a.n == b.n,
        a.encodes(q, find_max),
        b.encodes(q, find_max),
    ensures
        a.cells@ == b.cells@,
{
    let n = a.n as int;
    assert forall|i: int| 0 <= i < a.cells@.len() implies a.cells@[i] == b.cells@[i] by {
        lemma_flat_index_split(i, n);
        let r = i / n;
        let c = i % n;
        assert(a.cell(r, c) == encoded_cell(q, find_max, r, c));
        assert(b.cell(r, c) == encoded_cell(q, find_max, r, c));
    }
    assert(a.cells@ =~= b.cells@);
}

/// A flat index below `n * n` splits into a row and a column below `n`.
pub proof fn lemma_flat_index_split(i: int, n: int)
    by (nonlinear_arith)
    requires
        0 <= n,
        0 <= i < n * n,
    ensures
        0 < n,
        0 <= i / n < n,
        0 <= i % n < n,
        (i / n) * n + i % n == i,
{
}

} // verus!
