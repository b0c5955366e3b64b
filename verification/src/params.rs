//! The caller's configuration record and the engine knobs derived from it.

use vstd::prelude::*;
use crate::scalar::Scalar;

verus! {

/// How the engine splits the problem into sub-problems.
#[derive(Clone, Copy, Debug, PartialEq, Eq, Structural)]
pub enum Algorithm {
    /// Partition by the energy impact of each variable.
    EnergyImpact,
    /// Partition by the diversity of the solutions found so far.
    SolutionDiversity,
}

impl Algorithm {
    /// The number of solution ranks the engine reports for this algorithm.
    pub open spec fn spec_solution_slots(self) -> usize {
        match self {
            Algorithm::EnergyImpact => 20,
            Algorithm::SolutionDiversity => 70,
        }
    }

    /// The one-letter name the engine knows this algorithm by.
    pub open spec fn spec_selector(self) -> Seq<char> {
        match self {
            Algorithm::EnergyImpact => seq!['o'],
            Algorithm::SolutionDiversity => seq!['d'],
        }
    }

    /// The number of solution ranks the engine reports: 20 when it partitions
    /// by energy impact, 70 when it partitions by solution diversity.
    #[verifier::when_used_as_spec(spec_solution_slots)]
    pub fn solution_slots(self) -> (slots: usize)
        ensures
            slots == self.spec_solution_slots(),
    {
        match self {
            Algorithm::EnergyImpact => 20,
            Algorithm::SolutionDiversity => 70,
        }
    }

    /// The selector string the engine is given: `"o"` for energy impact,
    /// `"d"` for solution diversity.
    pub fn selector(self) -> (name: &'static str)
        ensures
            name@ == self.spec_selector(),
    {
        match self {
            Algorithm::EnergyImpact => {
                proof {
                    reveal_strlit("o");
                }
                assert("o"@ =~= seq!['o']);
                "o"
            },
            Algorithm::SolutionDiversity => {
                proof {
                    reveal_strlit("d");
                }
                assert("d"@ =~= seq!['d']);
                "d"
            },
        }
    }
}

/// The low 32 bits of `x`, read as an unsigned number.
pub open spec fn low_32(x: int) -> int {
    x % 0x1_0000_0000
}

/// The low 32 bits of `x`, read as a signed number in two's complement.
pub open spec fn signed_low_32(x: int) -> int {
    if low_32(x) < 0x8000_0000 {
        low_32(x)
    } else {
        low_32(x) - 0x1_0000_0000
    }
}

/// Cuts a number down to the 32 unsigned bits the engine takes.
pub fn truncate_to_u32(x: u64) -> (r: u32)
    ensures
        r == low_32(x as int),
        x <= u32::MAX ==> r == x,
{
    assert(x & 0xffff_ffff == x % 0x1_0000_0000) by (bit_vector);
    (x & 0xffff_ffff) as u32
}

/// Cuts a number down to the 32 signed bits the engine takes.
pub fn truncate_to_i32(x: u64) -> (r: i32)
    ensures
        r == signed_low_32(x as int),
        x <= i32::MAX ==> r == x,
{
    let low: u32 = truncate_to_u32(x);
    if low >= 0x8000_0000 {
        ((low - 0x8000_0000) as i32) + i32::MIN
    } else {
        low as i32
    }
}

/// What the caller chooses for one solve call.
#[derive(Clone, Copy, Debug)]
pub struct QbsolvParams {
    /// How many times the engine may restart its search without improvement.
    pub num_repeats: usize,
    /// Seed of the engine's random number generator.
    pub seed: u64,
    /// How much the engine prints; negative is silent.
    pub verbosity: i32,
    pub algorithm: Algorithm,
    /// Time limit of the engine, in seconds.
    pub timeout: usize,
    /// Sub-problem size that overrides the sampler's own.
    pub solver_limit: Option<usize>,
    /// Energy at which the engine may stop.
    pub target: Option<Scalar>,
    /// Maximise instead of minimise.
    pub find_max: bool,
}

/// The process-wide knobs the engine reads during one solve call.
#[derive(Clone, Copy, Debug)]
pub struct EngineGlobals {
    /// The algorithm selector string.
    pub algorithm: &'static str,
    /// Time limit in seconds.
    pub time: usize,
    /// Tabu list length; negative lets the engine choose.
    pub tlist: i32,
    /// Number of solutions the engine writes out by itself.
    pub numsol_out: i32,
    pub verbose: i32,
    /// Whether the engine dumps the matrix it was given.
    pub write_matrix: bool,
    /// The target energy; a target is active exactly when this is `Some`.
    pub target: Option<Scalar>,
    pub find_max: bool,
    /// Seed handed to the random number generator.
    pub seed: u32,
}

impl QbsolvParams {
    /// The default configuration: 50 repeats, a fixed seed, silent, partition
    /// by energy impact, thirty days of timeout, no size override, no target,
    /// minimising.
    pub fn new() -> (p: QbsolvParams)
        ensures
            p.num_repeats == 50,
            p.seed == 17932241798878,
            p.verbosity == -1,
            p.algorithm == Algorithm::EnergyImpact,
            p.timeout == 2592000,
            p.solver_limit is None,
            p.target is None,
            p.find_max == false,
    {
        QbsolvParams {
            num_repeats: 50,
            seed: 17932241798878,
            verbosity: -1,
            algorithm: Algorithm::EnergyImpact,
            timeout: 2592000,
            solver_limit: None,
            target: None,
            find_max: false,
        }
    }

    /// The knobs this configuration sets for the engine.
    pub open spec fn globals_match(&self, g: EngineGlobals) -> bool {
        &&& g.algorithm@ == self.algorithm.spec_selector()
        &&& g.time == self.timeout
        &&& g.tlist == -1
        &&& g.numsol_out == 0
        &&& g.verbose == self.verbosity
        &&& g.write_matrix == false
        &&& g.target == self.target
        &&& g.find_max == self.find_max
        &&& g.seed == low_32(self.seed as int)
    }

    /// Derives the engine's process-wide knobs from the configuration.
    pub fn engine_globals(&self) -> (g: EngineGlobals)
        ensures
            self.globals_match(g),
    {
        EngineGlobals {
            algorithm: self.algorithm.selector(),
            time: self.timeout,
            tlist: -1,
            numsol_out: 0,
            verbose: self.verbosity,
            write_matrix: false,
            target: self.target,
            find_max: self.find_max,
            seed: truncate_to_u32(self.seed),
        }
    }
}

} // verus!
