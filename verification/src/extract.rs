//! Result extractor: the engine's raw output arrays to a ranked solution list.

use vstd::prelude::*;
use crate::scalar::Scalar;

verus! {

/// One returned solution: the assignment, its energy in the caller's sign
/// convention, and how often the engine met it.
pub type Solution = (Vec<bool>, Scalar, usize);

/// The four parallel arrays the engine fills.
///
/// For `n` variables and `n_solutions` ranks there are `n_solutions + 1`
/// slots. `solution_list` holds one block of `n` bytes per slot,
/// `energy_list` and `solution_counts` one entry per slot, and `q_index` maps
/// each rank to the slot that holds it.
#[derive(Clone, Debug)]
pub struct RawOutput {
    pub solution_list: Vec<i8>,
    pub energy_list: Vec<Scalar>,
    pub solution_counts: Vec<i32>,
    pub q_index: Vec<i32>,
}

/// An occurrence count as an unsigned machine word: unchanged where it is not
/// negative, and wrapped around the word size where it is.
pub open spec fn count_as_usize(c: i32) -> usize {
    if c >= 0 {
        c as usize
    } else {
        (usize::MAX + 1 + c) as usize
    }
}

/// The assignment a block of solution bytes stands for: a zero byte is `true`,
/// any other byte is `false`.
pub open spec fn decoded_bits(block: Seq<i8>) -> Seq<bool> {
    Seq::new(block.len(), |j: int| block[j] == 0)
}

impl RawOutput {
    /// The arrays have the sizes that `n` variables and `n_solutions` ranks
    /// call for.
    pub open spec fn wf(&self, n: usize, n_solutions: usize) -> bool {
        &&& n_solutions < usize::MAX
        &&& n * (n_solutions + 1) <= usize::MAX
        &&& self.solution_list@.len() == n * (n_solutions + 1)
        &&& self.energy_list@.len() == n_solutions + 1
        &&& self.solution_counts@.len() == n_solutions + 1
        &&& self.q_index@.len() == n_solutions + 1
    }

    /// The slot that rank `rank` points to.
    pub open spec fn slot(&self, rank: int) -> int {
        self.q_index@[rank] as int
    }

    /// Whether rank `rank` points to one of the slots.
    pub open spec fn slot_valid(&self, rank: int) -> bool {
        0 <= self.slot(rank) < self.solution_counts@.len()
    }

    /// Whether rank `rank` points to a slot that holds a solution.
    pub open spec fn occupied(&self, rank: int) -> bool {
        self.slot_valid(rank) && self.solution_counts@[self.slot(rank)] != 0
    }

    /// Whether the walk over the ranks gets as far as `rank`: every rank
    /// before it holds a solution.
    pub open spec fn reached(&self, rank: int) -> bool {
        forall|j: int| 0 <= j < rank ==> #[trigger] self.occupied(j)
    }

    /// Whether every rank the walk gets to points to one of the slots.
    pub open spec fn readable(&self, n_solutions: usize) -> bool {
        forall|i: int|
            0 <= i < n_solutions && #[trigger] self.reached(i) ==> self.slot_valid(i)
    }

    /// The bytes of the block that rank `rank` points to.
    pub open spec fn block(&self, rank: int, n: usize) -> Seq<i8> {
        self.solution_list@.subrange(self.slot(rank) * n, (self.slot(rank) + 1) * n)
    }

    /// The assignment of rank `rank`.
    pub open spec fn assignment(&self, rank: int, n: usize) -> Seq<bool> {
        decoded_bits(self.block(rank, n))
    }

    /// The energy of rank `rank`, in the caller's sign convention.
    pub open spec fn energy(&self, rank: int, find_max: bool) -> Scalar {
        self.energy_list@[self.slot(rank)].oriented(find_max)
    }

    /// The occurrence count of rank `rank`.
    pub open spec fn count(&self, rank: int) -> usize {
        count_as_usize(self.solution_counts@[self.slot(rank)])
    }

    /// Whether `s` is the solution of rank `rank`.
    pub open spec fn yields(&self, rank: int, n: usize, find_max: bool, s: Solution) -> bool {
        &&& s.0@ == self.assignment(rank, n)
        &&& s.1 == self.energy(rank, find_max)
        &&& s.2 == self.count(rank)
    }

    /// Whether `out` is what the walk over the first `n_solutions` ranks
    /// produces: one solution per rank, in rank order, up to the first rank
    /// whose slot is empty.
    pub open spec fn extracts_to(
        &self,
        n: usize,
        n_solutions: usize,
        find_max: bool,
        out: Seq<Solution>,
    ) -> bool {
        &&& out.len() <= n_solutions
        &&& self.reached(out.len() as int)
        &&& forall|i: int| 0 <= i < out.len() ==> #[trigger] self.yields(i, n, find_max, out[i])
        &&& out.len() < n_solutions ==> !self.occupied(out.len() as int)
    }

    /// Whether every entry of every array is zero.
    pub open spec fn blank(&self) -> bool {
        &&& forall|i: int| 0 <= i < self.solution_list@.len() ==> self.solution_list@[i] == 0
        &&& forall|i: int| 0 <= i < self.energy_list@.len() ==> self.energy_list@[i] == Scalar::zero()
        &&& forall|i: int| 0 <= i < self.solution_counts@.len() ==> self.solution_counts@[i] == 0
        &&& forall|i: int| 0 <= i < self.q_index@.len() ==> self.q_index@[i] == 0
    }

    /// Allocates the output arrays for the engine to fill, every entry zero.
    pub fn allocate(n: usize, n_solutions: usize) -> (raw: RawOutput)
        requires
            n_solutions < usize::MAX,
            n * (n_solutions + 1) <= usize::MAX,
        ensures
            raw.wf(n, n_solutions),
            raw.blank(),
    {
        let slots: usize = n_solutions + 1;
        let bits: usize = n * slots;
        let mut solution_list: Vec<i8> = Vec::new();
        let mut i: usize = 0;
        while i < bits
            invariant
                i <= bits,
                solution_list@.len() == i,
                forall|j: int| 0 <= j < i ==> solution_list@[j] == 0,
            decreases bits - i,
        {
            solution_list.push(0i8);
            i += 1;
        }
        let mut energy_list: Vec<Scalar> = Vec::new();
        let mut solution_counts: Vec<i32> = Vec::new();
        let mut q_index: Vec<i32> = Vec::new();
        let mut s: usize = 0;
        while s < slots
            invariant
                s <= slots,
                energy_list@.len() == s,
                solution_counts@.len() == s,
                q_index@.len() == s,
                forall|j: int| 0 <= j < s ==> energy_list@[j] == Scalar::zero(),
                forall|j: int| 0 <= j < s ==> solution_counts@[j] == 0,
                forall|j: int| 0 <= j < s ==> q_index@[j] == 0,
            decreases slots - s,
        {
            energy_list.push(Scalar::zero());
            solution_counts.push(0i32);
            q_index.push(0i32);
            s += 1;
        }
        RawOutput { solution_list, energy_list, solution_counts, q_index }
    }

    /// Tells whether the arrays have the right sizes and every rank the walk
    /// gets to points to one of the slots, which is what `extract` asks for.
    pub fn is_readable(&self, n: usize, n_solutions: usize) -> (ok: bool)
        ensures
            ok == (self.wf(n, n_solutions) && self.readable(n_solutions)),
    {
        if n_solutions == usize::MAX {
            return false;
        }
        let slots: usize = n_solutions + 1;
        let bits: usize = match n.checked_mul(slots) {
            Some(b) => b,
            None => {
                return false;
            },
        };
        if self.solution_list.len() != bits || self.energy_list.len() != slots
            || self.solution_counts.len() != slots || self.q_index.len() != slots {
            return false;
        }
        let mut i: usize = 0;
        while i < n_solutions
            invariant
                i <= n_solutions,
                slots == n_solutions + 1,
                self.wf(n, n_solutions),
                self.reached(i as int),
            decreases n_solutions - i,
        {
            let idx: i32 = self.q_index[i];
            if idx < 0 || idx as usize >= slots {
                assert(!self.slot_valid(i as int));
                return false;
            }
            if self.solution_counts[idx as usize] == 0 {
                assert(!self.occupied(i as int));
                assert forall|k: int| 0 <= k < n_solutions && #[trigger] self.reached(
                    k,
                ) implies self.slot_valid(k) by {
                    if k > i {
                        assert(self.occupied(i as int));
                    } else {
                        assert(self.reached(k));
                        if k < i {
                            assert(self.occupied(k));
                        }
                    }
                }
                return true;
            }
            assert(self.occupied(i as int));
            i += 1;
        }
        assert forall|k: int| 0 <= k < n_solutions && #[trigger] self.reached(
            k,
        ) implies self.slot_valid(k) by {
            assert(self.occupied(k));
        }
        true
    }
}

/// Turns an occurrence count into an unsigned machine word.
pub fn count_to_usize(c: i32) -> (u: usize)
    ensures
        u == count_as_usize(c),
        c != 0 ==> u >= 1,
{
    if c >= 0 {
        c as usize
    } else {
        let below: i32 = -(c + 1);
        usize::MAX - (below as usize)
    }
}

/// Decodes one block of `n` solution bytes, value by value: a zero byte means
/// that the variable is `true`.
pub fn decode_block(solution_list: &Vec<i8>, start: usize, n: usize) -> (bits: Vec<bool>)
    requires
        start + n <= solution_list@.len(),
    ensures
        bits@ == decoded_bits(solution_list@.subrange(start as int, start + n)),
{
    let total: usize = solution_list.len();
    let mut bits: Vec<bool> = Vec::new();
    let mut j: usize = 0;
    while j < n
        invariant
            j <= n,
            start + n <= total,
            total == solution_list@.len(),
            bits@.len() == j,
            forall|k: int| 0 <= k < j ==> bits@[k] == (solution_list@[start + k] == 0),
        decreases n - j,
    {
        bits.push(solution_list[start + j] == 0);
        j += 1;
    }
    assert(bits@ =~= decoded_bits(solution_list@.subrange(start as int, start + n)));
    bits
}

/// Walks the ranks `0..n_solutions` in order and returns one solution per
/// rank, stopping without error at the first rank whose slot has an occurrence
/// count of zero.
///
/// Each solution holds the slot's bytes decoded to booleans (zero is `true`),
/// the slot's energy times the sign factor of the optimisation sense, and the
/// slot's occurrence count. The order of the ranks is kept.
pub fn extract(raw: &RawOutput, n: usize, n_solutions: usize, find_max: bool) -> (out: Vec<
    Solution,
>)
    requires
        raw.wf(n, n_solutions),
        raw.readable(n_solutions),
    ensures
        raw.extracts_to(n, n_solutions, find_max, out@),
        forall|i: int| 0 <= i < out@.len() ==> (#[trigger] out@[i]).0@.len() == n && out@[i].2 >= 1,
{
    let mut out: Vec<Solution> = Vec::new();
    let mut i: usize = 0;
    while i < n_solutions
        invariant
            i <= n_solutions,
            raw.wf(n, n_solutions),
            raw.readable(n_solutions),
            out@.len() == i,
            raw.reached(i as int),
            forall|k: int| 0 <= k < i ==> #[trigger] raw.yields(k, n, find_max, out@[k]),
        decreases n_solutions - i,
    {
        assert(raw.slot_valid(i as int));
        let soln_idx: usize = raw.q_index[i] as usize;
        let count: i32 = raw.solution_counts[soln_idx];
        if count == 0 {
            proof {
                assert(!raw.occupied(i as int));
                assert forall|k: int| 0 <= k < out@.len() implies (#[trigger] out@[k]).0@.len()
                    == n && out@[k].2 >= 1 by {
                    lemma_extracted_shape(*raw, n, n_solutions, find_max, out@, k);
                }
            }
            return out;
        }
        proof {
            lemma_block_in_range(soln_idx as int, n as int, n_solutions as int);
        }
        let start: usize = soln_idx * n;
        let bits = decode_block(&raw.solution_list, start, n);
        let energy = raw.energy_list[soln_idx].oriented(find_max);
        let entry: Solution = (bits, energy, count_to_usize(count));
        proof {
            assert((soln_idx + 1) * n == start + n) by (nonlinear_arith)
                requires
                    start == soln_idx * n,
            ;
            assert(raw.yields(i as int, n, find_max, entry));
            assert(raw.occupied(i as int));
        }
        out.push(entry);
        i += 1;
    }
    proof {
        assert forall|k: int| 0 <= k < out@.len() implies (#[trigger] out@[k]).0@.len() == n
            && out@[k].2 >= 1 by {
            lemma_extracted_shape(*raw, n, n_solutions, find_max, out@, k);
        }
    }
    out
}

/// The block of a slot lies inside the solution bytes.
pub proof fn lemma_block_in_range(slot: int, n: int, n_solutions: int)
    by (nonlinear_arith)
    requires
        0 <= slot <= n_solutions,
        0 <= n,
    ensures
        0 <= slot * n,
        slot * n + n <= n * (n_solutions + 1),
{
}

/// Arrays that nothing was written to hold no solution.
pub proof fn lemma_blank_is_empty(raw: RawOutput, n: usize, n_solutions: usize, find_max: bool)
    requires
        raw.wf(n, n_solutions),
        raw.blank(),
    ensures
        raw.readable(n_solutions),
        raw.extracts_to(n, n_solutions, find_max, Seq::<Solution>::empty()),
{
    assert(raw.slot(0) == 0);
    assert(!raw.occupied(0));
    assert forall|i: int| 0 <= i < n_solutions && #[trigger] raw.reached(i) implies raw.slot_valid(
        i,
    ) by {
        assert(raw.q_index@[i] == 0);
    }
}

/// The contract of `extract` leaves no choice: two lists extracted from the
/// same arrays have the same length and, rank by rank, the same assignment,
/// energy and count.
pub proof fn lemma_extraction_unique(
    raw: RawOutput,
    n: usize,
    n_solutions: usize,
    find_max: bool,
    a: Seq<Solution>,
    b: Seq<Solution>,
)
    requires
        raw.extracts_to(n, n_solutions, find_max, a),
        raw.extracts_to(n, n_solutions, find_max, b),
    ensures
        a.len() == b.len(),
        forall|i: int|
            0 <= i < a.len() ==> (#[trigger] a[i]).0@ == b[i].0@ && a[i].1 == b[i].1 && a[i].2
                == b[i].2,
{
    lemma_extraction_senses(raw, n, n_solutions, find_max, find_max, a, b);
}

/// What the optimisation sense changes in the result, and what it does not:
/// extracting the same arrays under two senses gives the same number of
/// solutions with the same assignments and counts, and energies that agree
/// where the senses agree and are each other's negation where they differ.
pub proof fn lemma_extraction_senses(
    raw: RawOutput,
    n: usize,
    n_solutions: usize,
    sense_a: bool,
    sense_b: bool,
    a: Seq<Solution>,
    b: Seq<Solution>,
)
    requires
        raw.extracts_to(n, n_solutions, sense_a, a),
        raw.extracts_to(n, n_solutions, sense_b, b),
    ensures
        a.len() == b.len(),
        forall|i: int|
            0 <= i < a.len() ==> (#[trigger] a[i]).0@ == b[i].0@ && a[i].2 == b[i].2 && a[i].1 == (
            if sense_a == sense_b {
                b[i].1
            } else {
                b[i].1.negated()
            }),
{
    if a.len() < b.len() {
        assert(raw.occupied(a.len() as int));
    }
    if b.len() < a.len() {
        assert(raw.occupied(b.len() as int));
    }
    assert forall|i: int| 0 <= i < a.len() implies (#[trigger] a[i]).0@ == b[i].0@ && a[i].2
        == b[i].2 && a[i].1 == (if sense_a == sense_b {
        b[i].1
    } else {
        b[i].1.negated()
    }) by {
        assert(raw.yields(i, n, sense_a, a[i]));
        assert(raw.yields(i, n, sense_b, b[i]));
    }
}

/// Every extracted solution has one boolean per variable and was met at
/// least once.
pub proof fn lemma_extracted_shape(
    raw: RawOutput,
    n: usize,
    n_solutions: usize,
    find_max: bool,
    out: Seq<Solution>,
    i: int,
)
    requires
        raw.wf(n, n_solutions),
        raw.extracts_to(n, n_solutions, find_max, out),
        0 <= i < out.len(),
    ensures
        out[i].0@.len() == n,
        out[i].2 >= 1,
        forall|j: int|
            0 <= j < n ==> out[i].0@[j] == (raw.solution_list@[raw.slot(i) * n + j] == 0),
{
    assert(raw.yields(i, n, find_max, out[i]));
    assert(raw.occupied(i));
    lemma_block_in_range(raw.slot(i), n as int, n_solutions as int);
    assert((raw.slot(i) + 1) * n == raw.slot(i) * n + n) by (nonlinear_arith);
}

} // verus!
