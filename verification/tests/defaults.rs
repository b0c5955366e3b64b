use qbsolv::params::{truncate_to_i32, truncate_to_u32, Algorithm, QbsolvParams};
use qbsolv::sampler::{default_parameters, SamplerContext, SubSampler, DEFAULT_REPEATS, DEFAULT_SUB_SIZE};
use qbsolv::scalar::Scalar;

#[test]
fn ffi_test() {
    let params = default_parameters();
    assert_eq!(params.repeats, 50);
    assert_eq!(params.sub_size, 47);
}

#[test]
fn default_parameters_leave_the_sampler_slots_unset() {
    let params = default_parameters();
    assert_eq!(params.sub_sampler, SubSampler::Tabu);
    assert_eq!(params.sub_sampler_data, SamplerContext::Null);
    assert_eq!(DEFAULT_REPEATS, 50);
    assert_eq!(DEFAULT_SUB_SIZE, 47);
}

#[test]
fn new_gives_the_default_record() {
    let p = QbsolvParams::new();
    assert_eq!(p.num_repeats, 50);
    assert_eq!(p.seed, 17932241798878);
    assert_eq!(p.verbosity, -1);
    assert_eq!(p.algorithm, Algorithm::EnergyImpact);
    assert_eq!(p.timeout, 2592000);
    assert_eq!(p.solver_limit, None);
    assert_eq!(p.target, None);
    assert!(!p.find_max);
}

#[test]
fn energy_impact_has_twenty_slots() {
    assert_eq!(Algorithm::EnergyImpact.solution_slots(), 20);
    assert_eq!(Algorithm::EnergyImpact.selector(), "o");
}

#[test]
fn solution_diversity_has_seventy_slots() {
    assert_eq!(Algorithm::SolutionDiversity.solution_slots(), 70);
    assert_eq!(Algorithm::SolutionDiversity.selector(), "d");
}

#[test]
fn globals_of_the_default_record() {
    let g = QbsolvParams::new().engine_globals();
    assert_eq!(g.algorithm, "o");
    assert_eq!(g.time, 2592000);
    assert_eq!(g.tlist, -1);
    assert_eq!(g.numsol_out, 0);
    assert_eq!(g.verbose, -1);
    assert!(!g.write_matrix);
    assert_eq!(g.target, None);
    assert!(!g.find_max);
    assert_eq!(g.seed, 753338078);
    assert_eq!(g.seed, 17932241798878u64 as u32);
}

#[test]
fn globals_carry_the_record() {
    let mut p = QbsolvParams::new();
    p.algorithm = Algorithm::SolutionDiversity;
    p.timeout = 10;
    p.verbosity = 3;
    p.target = Some(Scalar::from_bits((-4.5f64).to_bits()));
    p.find_max = true;
    p.seed = 7;
    let g = p.engine_globals();
    assert_eq!(g.algorithm, "d");
    assert_eq!(g.time, 10);
    assert_eq!(g.verbose, 3);
    assert_eq!(g.target.map(|t| f64::from_bits(t.to_bits())), Some(-4.5));
    assert!(g.find_max);
    assert_eq!(g.seed, 7);
    assert_eq!(g.tlist, -1);
    assert_eq!(g.numsol_out, 0);
    assert!(!g.write_matrix);
}

#[test]
fn truncation_keeps_small_numbers() {
    assert_eq!(truncate_to_u32(0), 0);
    assert_eq!(truncate_to_u32(4294967295), 4294967295);
    assert_eq!(truncate_to_i32(0), 0);
    assert_eq!(truncate_to_i32(50), 50);
    assert_eq!(truncate_to_i32(2147483647), 2147483647);
}

#[test]
fn truncation_wraps_large_numbers() {
    assert_eq!(truncate_to_u32(4294967296), 0);
    assert_eq!(truncate_to_u32(4294967296 + 9), 9);
    assert_eq!(truncate_to_i32(2147483648), -2147483648);
    assert_eq!(truncate_to_i32(4294967295), -1);
    assert_eq!(truncate_to_i32(4294967296 + 5), 5);
    for x in [0u64, 1, 2147483647, 2147483648, 4294967295, 4294967296, 17932241798878, u64::MAX] {
        assert_eq!(truncate_to_u32(x), x as u32);
        assert_eq!(truncate_to_i32(x), x as i32);
    }
}
