//! The battery: which test units run, in which order, on one seed sequence.
use vstd::prelude::*;
use crate::record::{
    Outcome, TestKind, no_data, no_data_result, invalid_configuration,
    invalid_configuration_result,
};
use crate::bit_tests::{
    test_frequence, test_entropy, test_periodicity, test_correlation, test_sequence_length,
    frequency_result, entropy_outcome, periodicity_result, correlation_result,
    sequence_length_result,
};
use crate::counting::{
    MAX_SEEDS, test_poker, test_blocs, analyze_seed_patterns, poker_result, blocks_result,
    pattern_bias_result,
};
use crate::distinct::{
    test_collisions, test_imprevisibility, collision_result, imprevisibility_result,
};
use crate::windows::{test_periodicity_advanced, periodicity_advanced_result};
use crate::generator::generate_seeds;

verus! {

/// One test unit of the battery, with its parameters.
#[derive(Clone, Copy, Debug, PartialEq, Eq, Structural)]
pub enum TestUnit {
    Frequency,
    Entropy,
    Poker,
    Periodicity,
    PeriodicityAdvanced,
    Correlation,
    SequenceLength,
    Blocks { block_size: usize },
    Collision,
    Imprevisibility,
    PatternBias,
}

/// Block size of the block chi-square test in the live-generation battery.
/// Its threshold of 25 is calibrated for blocks of 4 bits (16 buckets, 15
/// degrees of freedom); with blocks of 8 bits the expected statistic alone is
/// near 255 and the test could never pass.
pub const DEFAULT_BLOCK_SIZE: usize = 4;

/// What unit `u` hands back on the sequence `s`.
pub open spec fn unit_outcome(u: TestUnit, s: Seq<u64>) -> Outcome {
    match u {
        TestUnit::Frequency => Outcome::Decided(frequency_result(s)),
        TestUnit::Entropy => entropy_outcome(s),
        TestUnit::Poker => Outcome::Decided(poker_result(s)),
        TestUnit::Periodicity => Outcome::Decided(periodicity_result(s)),
        TestUnit::PeriodicityAdvanced => Outcome::Decided(periodicity_advanced_result(s)),
        TestUnit::Correlation => Outcome::Decided(correlation_result(s)),
        TestUnit::SequenceLength => Outcome::Decided(sequence_length_result(s)),
        TestUnit::Blocks { block_size } => Outcome::Decided(blocks_result(s, block_size as nat)),
        TestUnit::Collision => Outcome::Decided(collision_result(s)),
        TestUnit::Imprevisibility => Outcome::Decided(imprevisibility_result(s)),
        TestUnit::PatternBias => Outcome::Decided(pattern_bias_result(s)),
    }
}

/// Runs one test unit.
pub fn run_unit(unit: TestUnit, seeds: &[u64]) -> (r: Outcome)
    requires
        seeds@.len() <= MAX_SEEDS,
    ensures
        r == unit_outcome(unit, seeds@),
{
    match unit {
        TestUnit::Frequency => Outcome::Decided(test_frequence(seeds)),
        TestUnit::Entropy => test_entropy(seeds),
        TestUnit::Poker => Outcome::Decided(test_poker(seeds)),
        TestUnit::Periodicity => Outcome::Decided(test_periodicity(seeds)),
        TestUnit::PeriodicityAdvanced => Outcome::Decided(test_periodicity_advanced(seeds)),
        TestUnit::Correlation => Outcome::Decided(test_correlation(seeds)),
        TestUnit::SequenceLength => Outcome::Decided(test_sequence_length(seeds)),
        TestUnit::Blocks { block_size } => Outcome::Decided(test_blocs(seeds, block_size)),
        TestUnit::Collision => Outcome::Decided(test_collisions(seeds)),
        TestUnit::Imprevisibility => Outcome::Decided(test_imprevisibility(seeds)),
        TestUnit::PatternBias => Outcome::Decided(analyze_seed_patterns(seeds)),
    }
}

/// The seven units run on a sequence read from a file.
pub open spec fn file_analysis_battery() -> Seq<TestUnit> {
    seq![
        TestUnit::Frequency,
        TestUnit::Entropy,
        TestUnit::Poker,
        TestUnit::PeriodicityAdvanced,
        TestUnit::Correlation,
        TestUnit::SequenceLength,
        TestUnit::Collision,
    ]
}

/// The eleven units run on freshly generated seeds: ten tests, then the
/// pattern-bias analysis.
pub open spec fn live_generation_battery() -> Seq<TestUnit> {
    seq![
        TestUnit::Frequency,
        TestUnit::Entropy,
        TestUnit::Poker,
        TestUnit::Periodicity,
        TestUnit::Correlation,
        TestUnit::SequenceLength,
        TestUnit::Blocks { block_size: DEFAULT_BLOCK_SIZE },
        TestUnit::Imprevisibility,
        TestUnit::PeriodicityAdvanced,
        TestUnit::Collision,
        TestUnit::PatternBias,
    ]
}

pub fn file_analysis_units() -> (r: Vec<TestUnit>)
    ensures
        r@ == file_analysis_battery(),
{
    let r = vec![
        TestUnit::Frequency,
        TestUnit::Entropy,
        TestUnit::Poker,
        TestUnit::PeriodicityAdvanced,
        TestUnit::Correlation,
        TestUnit::SequenceLength,
        TestUnit::Collision,
    ];
    assert(r@ =~= file_analysis_battery());
    r
}

pub fn live_generation_units() -> (r: Vec<TestUnit>)
    ensures
        r@ == live_generation_battery(),
{
    let r = vec![
        TestUnit::Frequency,
        TestUnit::Entropy,
        TestUnit::Poker,
        TestUnit::Periodicity,
        TestUnit::Correlation,
        TestUnit::SequenceLength,
        TestUnit::Blocks { block_size: DEFAULT_BLOCK_SIZE },
        TestUnit::Imprevisibility,
        TestUnit::PeriodicityAdvanced,
        TestUnit::Collision,
        TestUnit::PatternBias,
    ];
    assert(r@ =~= live_generation_battery());
    r
}

/// The outcomes of the units `units` on `s`, in the order of `units`.  An
/// empty sequence gives one no-data record and dispatches nothing; a sequence
/// longer than `MAX_SEEDS` gives one configuration record.
pub open spec fn battery_outcomes(units: Seq<TestUnit>, s: Seq<u64>) -> Seq<Outcome> {
    if s.len() == 0 {
        seq![Outcome::Decided(no_data_result(TestKind::Analysis))]
    } else if s.len() > MAX_SEEDS {
        seq![Outcome::Decided(invalid_configuration_result(TestKind::Analysis))]
    } else {
        Seq::new(units.len(), |i: int| unit_outcome(units[i], s))
    }
}

/// Runs the units `units` on `seeds`, in order.
pub fn run_battery(units: &[TestUnit], seeds: &[u64]) -> (r: Vec<Outcome>)
    ensures
        r@ == battery_outcomes(units@, seeds@),
{
    if seeds.len() == 0 {
        let r = vec![Outcome::Decided(no_data(TestKind::Analysis))];
        assert(r@ =~= battery_outcomes(units@, seeds@));
        return r;
    }
    if seeds.len() as u64 > MAX_SEEDS {
        let r = vec![Outcome::Decided(invalid_configuration(TestKind::Analysis))];
        assert(r@ =~= battery_outcomes(units@, seeds@));
        return r;
    }
    let mut r: Vec<Outcome> = Vec::new();
    let mut i: usize = 0;
    while i < units.len()
        invariant
            0 < seeds@.len() <= MAX_SEEDS,
            i <= units@.len(),
            r@.len() == i,
            forall|k: int| 0 <= k < i ==> r@[k] == unit_outcome(units@[k], seeds@),
        decreases units@.len() - i,
    {
        let outcome = run_unit(units[i], seeds);
        r.push(outcome);
        i = i + 1;
    }
    assert(r@ =~= battery_outcomes(units@, seeds@));
    r
}

/// Runs the file-analysis battery on values read from a file.
pub fn analyze_rng_from_file(data: Vec<u64>) -> (r: Vec<Outcome>)
    ensures
        r@ == battery_outcomes(file_analysis_battery(), data@),
{
    let units = file_analysis_units();
    run_battery(units.as_slice(), data.as_slice())
}

/// Runs the live-generation battery on seeds that were just generated.
pub fn run_generated_battery(seeds: &[u64]) -> (r: Vec<Outcome>)
    ensures
        r@ == battery_outcomes(live_generation_battery(), seeds@),
{
    let units = live_generation_units();
    run_battery(units.as_slice(), seeds)
}

/// Generates `num_seeds` seeds and runs the live-generation battery on them.
/// Asking for no seed is a configuration error.
pub fn run_tests(num_seeds: usize) -> (r: Vec<Outcome>)
    ensures
        num_seeds == 0 ==> r@ == seq![
            Outcome::Decided(invalid_configuration_result(TestKind::Configuration)),
        ],
        num_seeds > 0 ==> exists|s: Seq<u64>|
            s.len() == num_seeds && r@ == battery_outcomes(live_generation_battery(), s),
{
    if num_seeds == 0 {
        let r = vec![Outcome::Decided(invalid_configuration(TestKind::Configuration))];
        assert(r@ =~= seq![
            Outcome::Decided(invalid_configuration_result(TestKind::Configuration)),
        ]);
        return r;
    }
    let seeds = generate_seeds(num_seeds);
    let r = run_generated_battery(seeds.as_slice());
    assert(seeds@.len() == num_seeds && r@ == battery_outcomes(live_generation_battery(), seeds@));
    r
}

} // verus!
