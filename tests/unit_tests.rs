use seed_tester::bit_tests::{
    test_correlation, test_entropy, test_frequence, test_periodicity, test_sequence_length,
};
use seed_tester::counting::{analyze_seed_patterns, test_blocs, test_poker};
use seed_tester::distinct::{test_collisions, test_imprevisibility};
use seed_tester::record::{Details, Fraction, Outcome, TestKind, TestResult};
use seed_tester::windows::test_periodicity_advanced;

fn frac(num: u128, den: u128) -> Fraction {
    Fraction { num, den }
}

fn same_value(a: &Fraction, b: &Fraction) -> bool {
    a.num * b.den == b.num * a.den
}

fn decided(o: Outcome) -> TestResult {
    match o {
        Outcome::Decided(r) => r,
        Outcome::Entropy { .. } => panic!("expected a decided record"),
    }
}

#[test]
fn frequency_of_all_set_seeds_is_one_and_fails() {
    let seeds = vec![u64::MAX; 5];
    let r = test_frequence(&seeds);
    assert_eq!(r.score.num, r.score.den);
    assert!(same_value(&r.score, &frac(1, 1)));
    assert!(!r.passed);
}

#[test]
fn frequency_counts_set_bits() {
    let r = test_frequence(&[0xFF]);
    assert!(same_value(&r.score, &frac(8, 64)));
    assert!(!r.passed);
    let balanced = test_frequence(&[0xFFFF_FFFF, 0xFFFF_FFFF_0000_0000]);
    assert!(same_value(&balanced.score, &frac(1, 2)));
    assert!(balanced.passed);
}

#[test]
fn frequency_of_empty_sequence_is_zero_and_fails() {
    let r = test_frequence(&[]);
    assert_eq!(r.score.num, 0);
    assert!(!r.passed);
    assert_eq!(r.details, Details::NoData);
}

#[test]
fn entropy_of_all_zero_seeds_is_zero_and_fails() {
    let r = decided(test_entropy(&[0, 0, 0]));
    assert_eq!(r.kind, TestKind::Entropy);
    assert_eq!(r.score.num, 0);
    assert!(!r.passed);
}

#[test]
fn entropy_hands_over_bit_counts() {
    match test_entropy(&[0xFF, 0]) {
        Outcome::Entropy { ones, bits } => {
            assert_eq!(ones, 8);
            assert_eq!(bits, 128);
        }
        Outcome::Decided(_) => panic!("expected bit counts"),
    }
}

#[test]
fn poker_matches_the_classic_formula() {
    // (16 / N) * sum(c^2) - N with N = 4 and one bucket of 4: 64 - 4 = 60.
    let r = test_poker(&[0, 0, 0, 0]);
    assert!(same_value(&r.score, &frac(60, 1)));
    assert!(!r.passed);
    // Every nibble once: (16 / 16) * 16 - 16 = 0.
    let seeds: Vec<u64> = (0..16).collect();
    let r = test_poker(&seeds);
    assert_eq!(r.score.num, 0);
    assert!(!r.passed);
}

#[test]
fn poker_of_empty_sequence_fails() {
    let r = test_poker(&[]);
    assert_eq!(r.score.num, 0);
    assert!(!r.passed);
}

#[test]
fn periodicity_measures_agreeing_bits() {
    let r = test_periodicity(&[0, 0]);
    assert!(same_value(&r.score, &frac(1, 1)));
    assert!(!r.passed);
    let r = test_periodicity(&[0, u64::MAX]);
    assert_eq!(r.score.num, 0);
    let r = test_periodicity(&[0, 0xFFFF_FFFF]);
    assert!(same_value(&r.score, &frac(1, 2)));
    assert!(r.passed);
}

#[test]
fn periodicity_without_pairs_scores_zero() {
    let r = test_periodicity(&[7]);
    assert_eq!(r.score.num, 0);
    assert!(!r.passed);
    let r = test_periodicity(&[]);
    assert_eq!(r.score.num, 0);
}

#[test]
fn correlation_measures_differing_bits() {
    let r = test_correlation(&[0, u64::MAX]);
    assert!(same_value(&r.score, &frac(1, 1)));
    assert!(!r.passed);
    let r = test_correlation(&[0, 0xFFFF_FFFF, 0]);
    assert!(same_value(&r.score, &frac(1, 2)));
    assert!(r.passed);
    let r = test_correlation(&[5]);
    assert_eq!(r.score.num, 0);
}

#[test]
fn sequence_length_of_all_set_seed_is_64() {
    let r = test_sequence_length(&[u64::MAX]);
    assert!(same_value(&r.score, &frac(64, 1)));
    assert!(!r.passed);
}

#[test]
fn sequence_length_of_zero_seed_is_0() {
    let r = test_sequence_length(&[0]);
    assert_eq!(r.score.num, 0);
    assert!(!r.passed);
}

#[test]
fn sequence_length_takes_longest_run_over_seeds() {
    // Twelve set bits from bit 4, and a run of three.
    let r = test_sequence_length(&[0xFFF0, 0b1110_0111]);
    assert!(same_value(&r.score, &frac(12, 1)));
    assert!(r.passed);
}

#[test]
fn blocks_chi_square_exact_value() {
    // One zero seed: sixteen blocks of value 0; E = 1, so 15^2 + 15 = 240.
    let r = test_blocs(&[0], 4);
    assert!(same_value(&r.score, &frac(240, 1)));
    assert!(!r.passed);
}

#[test]
fn blocks_uniform_counts_pass() {
    // 0xFEDCBA9876543210 holds every 4-bit value once.
    let r = test_blocs(&[0xFEDC_BA98_7654_3210], 4);
    assert_eq!(r.score.num, 0);
    assert!(r.passed);
}

#[test]
fn blocks_reject_invalid_sizes() {
    for size in [0usize, 17, 64] {
        let r = test_blocs(&[1, 2, 3], size);
        assert_eq!(r.details, Details::InvalidConfiguration);
        assert!(!r.passed);
        assert!(r.thresholds.is_none());
    }
}

#[test]
fn blocks_of_empty_sequence_report_no_data() {
    let r = test_blocs(&[], 8);
    assert_eq!(r.details, Details::NoData);
    assert!(!r.passed);
}

#[test]
fn collision_rate_is_exact() {
    let r = test_collisions(&[1, 2, 2, 3, 4, 5, 5]);
    assert!(same_value(&r.score, &frac(200, 7)));
    assert_eq!(r.details, Details::Collisions { total: 7, distinct: 5 });
    let r = test_collisions(&[]);
    assert_eq!(r.details, Details::NoData);
}

#[test]
fn imprevisibility_counts_distinct_differences() {
    let r = test_imprevisibility(&[1, 2, 3, 4, 5]);
    assert!(same_value(&r.score, &frac(1, 5)));
    assert!(!r.passed);
    let r = test_imprevisibility(&[0, 10, 30, 60, 100, 150]);
    assert!(same_value(&r.score, &frac(5, 6)));
    assert!(r.passed);
    // Differences taken without wrapping: |3 - 10| = 7 and |10 - 3| = 7.
    let r = test_imprevisibility(&[3, 10, 3]);
    assert!(same_value(&r.score, &frac(1, 3)));
}

#[test]
fn imprevisibility_at_threshold_fails() {
    // Four distinct differences over five seeds: exactly 0.8.
    let r = test_imprevisibility(&[0, 1, 3, 6, 10]);
    assert!(same_value(&r.score, &frac(4, 5)));
    assert!(!r.passed);
}

#[test]
fn imprevisibility_of_empty_sequence_fails() {
    let r = test_imprevisibility(&[]);
    assert_eq!(r.score.num, 0);
    assert!(!r.passed);
}

#[test]
fn pattern_bias_on_all_nibbles() {
    let seeds: Vec<u64> = (0..16).collect();
    let r = analyze_seed_patterns(&seeds);
    assert!(same_value(&r.score, &frac(1, 16)));
    assert_eq!(r.details, Details::Buckets { used: 16 });
    assert!(r.passed);
}

#[test]
fn pattern_bias_on_one_nibble() {
    let r = analyze_seed_patterns(&[1, 17, 33]);
    assert!(same_value(&r.score, &frac(1, 1)));
    assert_eq!(r.details, Details::Buckets { used: 1 });
    assert!(!r.passed);
    let r = analyze_seed_patterns(&[]);
    assert_eq!(r.details, Details::NoData);
    assert!(!r.passed);
}

#[test]
fn periodicity_advanced_counts_repeated_windows() {
    let r = test_periodicity_advanced(&[1, 2, 3, 1, 2, 3, 1, 2, 3]);
    assert!(same_value(&r.score, &frac(3, 1)));
    assert_eq!(r.details, Details::Windows { distinct: 3, max_repeats: 3 });
    assert!(!r.passed);
    let r = test_periodicity_advanced(&[1, 2, 3, 1, 2, 3]);
    assert_eq!(r.details, Details::Windows { distinct: 3, max_repeats: 2 });
    assert!(r.passed);
}

#[test]
fn periodicity_advanced_on_short_sequences_scores_zero_and_passes() {
    for seeds in [vec![], vec![1u64], vec![1u64, 2]] {
        let r = test_periodicity_advanced(&seeds);
        assert_eq!(r.score.num, 0);
        assert!(r.passed);
    }
}

#[test]
fn running_a_unit_twice_gives_identical_records() {
    let seeds = vec![9, 1, 4, 4, 1 << 40, 77, 9, 1, 4];
    assert_eq!(test_periodicity_advanced(&seeds), test_periodicity_advanced(&seeds));
    assert_eq!(test_collisions(&seeds), test_collisions(&seeds));
    assert_eq!(test_entropy(&seeds), test_entropy(&seeds));
    assert_eq!(test_blocs(&seeds, 8), test_blocs(&seeds, 8));
}
