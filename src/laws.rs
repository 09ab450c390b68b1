//! Properties that hold of the test units on every sequence.
use vstd::prelude::*;
use crate::bits::{bit_set, ones_below, popcount};
use crate::bit_tests::{
    ones_prefix, total_ones, frequency_result, entropy_outcome, lemma_prefix_bounds,
    run_ending_at, longest_run_below, longest_run, sequence_length_result,
};
use crate::counting::{
    MAX_SEEDS, pearson_prefix, nibble, nibble_count_prefix, poker_score, block_values,
    blocks_per_seed, bias_score, used_buckets, chi_square, nibble_counts, block_counts,
};
use crate::distinct::{adjacent_differences, imprevisibility_score};
use crate::windows::periodicity_advanced_result;
use crate::battery::{TestUnit, unit_outcome};
use crate::record::{Fraction, Outcome, zero};

verus! {

proof fn lemma_all_set(x: u64, n: nat)
    requires
        x == 0xffff_ffff_ffff_ffffu64,
        n <= 64,
    ensures
        ones_below(x, n) == n,
    decreases n,
{
    if n > 0 {
        lemma_all_set(x, (n - 1) as nat);
        let i = (n - 1) as u64;
        assert((0xffff_ffff_ffff_ffffu64 >> i) & 1u64 == 1u64) by (bit_vector)
            requires
                i < 64,
        ;
        assert(bit_set(x, (n - 1) as nat));
    }
}

proof fn lemma_all_clear(x: u64, n: nat)
    requires
        x == 0,
        n <= 64,
    ensures
        ones_below(x, n) == 0,
    decreases n,
{
    if n > 0 {
        lemma_all_clear(x, (n - 1) as nat);
        let i = (n - 1) as u64;
        assert((0u64 >> i) & 1u64 == 0u64) by (bit_vector);
        assert(!bit_set(x, (n - 1) as nat));
    }
}

proof fn lemma_ones_of_constant(s: Seq<u64>, n: nat, c: u64)
    requires
        n <= s.len(),
        forall|i: int| 0 <= i < s.len() ==> s[i] == c,
    ensures
        ones_prefix(s, n) == n * popcount(c),
    decreases n,
{
    if n > 0 {
        let m = (n - 1) as nat;
        lemma_ones_of_constant(s, m, c);
        assert(ones_prefix(s, n) == ones_prefix(s, m) + popcount(c));
        assert(n * popcount(c) == m * popcount(c) + popcount(c)) by (nonlinear_arith)
            requires
                m == n - 1,
        ;
    } else {
        assert(0 * popcount(c) == 0) by (nonlinear_arith);
    }
}

/// A sequence of seeds with all 64 bits set has a frequency of exactly one,
/// and fails the frequency test.
pub proof fn lemma_frequency_of_all_set(s: Seq<u64>)
    requires
        0 < s.len() <= usize::MAX,
        forall|i: int| 0 <= i < s.len() ==> s[i] == u64::MAX,
    ensures
        frequency_result(s).score.same_value(Fraction::whole(1)),
        frequency_result(s).score.num == frequency_result(s).score.den,
        !frequency_result(s).passed,
{
    lemma_all_set(u64::MAX, 64);
    lemma_ones_of_constant(s, s.len(), u64::MAX);
    assert(popcount(u64::MAX) == 64);
    assert(total_ones(s) == s.len() * 64);
    assert(s.len() * 64 == 64 * s.len()) by (nonlinear_arith);
    let d = frequency_result(s).score.den;
    assert(0 < d);
    assert(d * 1 == 1 * d && !(d * 100 <= 55 * d)) by (nonlinear_arith)
        requires
            0 < d,
    ;
}

/// A sequence of zero seeds has entropy zero, and fails the entropy test.
pub proof fn lemma_entropy_of_all_zero(s: Seq<u64>)
    requires
        forall|i: int| 0 <= i < s.len() ==> s[i] == 0,
    ensures
        entropy_outcome(s) is Decided,
        entropy_outcome(s)->Decided_0.score == zero(),
        !entropy_outcome(s)->Decided_0.passed,
{
    lemma_all_clear(0, 64);
    lemma_ones_of_constant(s, s.len(), 0);
    assert(popcount(0) == 0);
    assert(total_ones(s) == 0) by (nonlinear_arith)
        requires
            total_ones(s) == s.len() * popcount(0),
            popcount(0) == 0,
    ;
}

proof fn lemma_runs_of_all_set(n: nat)
    requires
        n <= 64,
    ensures
        run_ending_at(u64::MAX, n) == n,
        longest_run_below(u64::MAX, n) == n,
    decreases n,
{
    if n > 0 {
        lemma_runs_of_all_set((n - 1) as nat);
        let i = (n - 1) as u64;
        assert((0xffff_ffff_ffff_ffffu64 >> i) & 1u64 == 1u64) by (bit_vector)
            requires
                i < 64,
        ;
        assert(bit_set(u64::MAX, (n - 1) as nat));
    }
}

proof fn lemma_runs_of_zero(n: nat)
    requires
        n <= 64,
    ensures
        run_ending_at(0, n) == 0,
        longest_run_below(0, n) == 0,
    decreases n,
{
    if n > 0 {
        lemma_runs_of_zero((n - 1) as nat);
        let i = (n - 1) as u64;
        assert((0u64 >> i) & 1u64 == 0u64) by (bit_vector);
        assert(!bit_set(0, (n - 1) as nat));
    }
}

/// A seed with all 64 bits set has a longest run of 64, outside `[10, 18]`;
/// a zero seed has a longest run of 0.
pub proof fn lemma_sequence_length_extremes()
    ensures
        sequence_length_result(seq![u64::MAX]).score == Fraction::whole(64),
        !sequence_length_result(seq![u64::MAX]).passed,
        sequence_length_result(seq![0u64]).score == Fraction::whole(0),
        !sequence_length_result(seq![0u64]).passed,
{
    lemma_runs_of_all_set(64);
    lemma_runs_of_zero(64);
    assert(longest_run(u64::MAX) == 64);
    assert(longest_run(0) == 0);
    let full = seq![u64::MAX];
    let zero_seed = seq![0u64];
    assert(full.len() == 1 && full[0] == u64::MAX);
    assert(zero_seed.len() == 1 && zero_seed[0] == 0);
    assert(crate::bit_tests::longest_run_prefix(full, 0) == 0);
    assert(crate::bit_tests::longest_run_prefix(full, 1) == 64);
    assert(crate::bit_tests::longest_run_prefix(zero_seed, 0) == 0);
    assert(crate::bit_tests::longest_run_prefix(zero_seed, 1) == 0);
}

/// With fewer than three seeds there is no window: the advanced periodicity
/// test scores zero and passes.
pub proof fn lemma_short_sequence_has_no_period(s: Seq<u64>)
    requires
        s.len() < 3,
    ensures
        periodicity_advanced_result(s).score == zero(),
        periodicity_advanced_result(s).passed,
{
}

/// A unit's outcome is a function of the unit and the sequence alone: running
/// the same unit twice on equal sequences gives equal outcomes.
pub proof fn lemma_outcome_is_deterministic(u: TestUnit, s1: Seq<u64>, s2: Seq<u64>)
    requires
        s1 == s2,
    ensures
        unit_outcome(u, s1) == unit_outcome(u, s2),
{
}

/// Every score is a finite number: a decided record holds well-formed
/// fractions (a positive denominator), and an entropy outcome has
/// `0 < ones < bits`, so that the proportion of set bits lies strictly between
/// 0 and 1 and its entropy is finite.  This holds of every non-empty sequence
/// that the units accept (at most `MAX_SEEDS` seeds).
#[verifier::spinoff_prover]
pub proof fn lemma_scores_are_finite(u: TestUnit, s: Seq<u64>)
    requires
        0 < s.len() <= MAX_SEEDS,
    ensures
        match unit_outcome(u, s) {
            Outcome::Decided(r) => r.wf(),
            Outcome::Entropy { ones, bits } => 0 < ones < bits,
        },
{
    lemma_prefix_bounds(s, s.len());
    match u {
        TestUnit::Blocks { block_size } => {
            lemma_blocks_result_finite(s, block_size);
        },
        TestUnit::Imprevisibility => {
            adjacent_differences(s).lemma_cardinality_of_set();
        },
        _ => {},
    }
}

proof fn lemma_blocks_score_finite(s: Seq<u64>, b: u64)
    requires
        0 < s.len() <= MAX_SEEDS,
        1 <= b <= 16,
    ensures
        chi_square(block_counts(s, b as nat), (blocks_per_seed(b as nat) * s.len()) as int).wf(),
{
    crate::counting::lemma_block_bounds(0, b);
    let per = 64u64 / b;
    crate::counting::lemma_per_seed_bounds(b, per);
    let k = block_values(b as nat);
    let n = s.len();
    let t = blocks_per_seed(b as nat) * n;
    assert(t == per * n);
    assert(block_counts(s, b as nat).len() == k);
    assert(1 <= k * t <= 0x1_0000 * 64 * 0x1_0000_0000) by (nonlinear_arith)
        requires
            2 <= k <= 0x1_0000,
            4 <= per <= 64,
            t == per * n,
            1 <= n <= 0x1_0000_0000,
    ;
}

proof fn lemma_blocks_result_finite(s: Seq<u64>, block_size: usize)
    requires
        0 < s.len() <= MAX_SEEDS,
    ensures
        crate::counting::blocks_result(s, block_size as nat).wf(),
{
    if 1 <= block_size <= 16 {
        assert((block_size as u64) as nat == block_size as nat);
        lemma_blocks_score_finite(s, block_size as u64);
    }
}

/// The inputs on which a verdict is not "low <= score <= high": the
/// imprevisibility test passes only strictly above its low threshold, and the
/// pattern-bias analysis also asks for more than ten used buckets and a bias
/// strictly below its high threshold.
pub open spec fn verdict_exception(u: TestUnit, s: Seq<u64>) -> bool {
    match u {
        TestUnit::Imprevisibility => s.len() > 0 && imprevisibility_score(s).same_value(
            Fraction { num: 4, den: 5 },
        ),
        TestUnit::PatternBias => s.len() > 0 && bias_score(s).le(Fraction { num: 1, den: 5 }) && (
        used_buckets(s) <= 10 || bias_score(s).same_value(Fraction { num: 1, den: 5 })),
        _ => false,
    }
}

/// A record passes exactly when it has thresholds and its score lies between
/// them, bounds included, but on the inputs of `verdict_exception`.
#[verifier::spinoff_prover]
pub proof fn lemma_verdict_matches_thresholds(u: TestUnit, s: Seq<u64>)
    requires
        s.len() <= MAX_SEEDS,
        !verdict_exception(u, s),
    ensures
        match unit_outcome(u, s) {
            Outcome::Decided(r) => r.verdict_matches_thresholds(),
            Outcome::Entropy { .. } => true,
        },
{
    match u {
        TestUnit::Imprevisibility => {
            if s.len() > 0 {
                adjacent_differences(s).lemma_cardinality_of_set();
                let f = imprevisibility_score(s);
                assert(f.num <= f.den);
                assert((4 * f.den < f.num * 5) == (4 * f.den <= f.num * 5 && f.num * 1 <= 1 * f.den))
                    by (nonlinear_arith)
                    requires
                        f.num <= f.den,
                        f.num * 5 != 4 * f.den,
                ;
            }
        },
        TestUnit::PatternBias => {
            if s.len() > 0 {
                let f = bias_score(s);
                assert(0 * f.den <= f.num * 1) by (nonlinear_arith);
            }
        },
        _ => {},
    }
}

/// Sum of the first `n` entries of `c`.
pub open spec fn sum_prefix(c: Seq<int>, n: nat) -> int
    decreases n,
{
    if n == 0 {
        0
    } else {
        sum_prefix(c, (n - 1) as nat) + c[n - 1]
    }
}

/// Sum of the squares of the first `n` entries of `c`.
pub open spec fn squares_prefix(c: Seq<int>, n: nat) -> int
    decreases n,
{
    if n == 0 {
        0
    } else {
        squares_prefix(c, (n - 1) as nat) + c[n - 1] * c[n - 1]
    }
}

proof fn lemma_pearson_expanded(c: Seq<int>, k: int, t: int, n: nat)
    ensures
        pearson_prefix(c, k, t, n) == k * k * squares_prefix(c, n) - 2 * k * t * sum_prefix(c, n)
            + n * t * t,
        pearson_prefix(c, k, t, n) >= 0,
    decreases n,
{
    if n > 0 {
        let m = (n - 1) as nat;
        lemma_pearson_expanded(c, k, t, m);
        let x = c[m as int];
        let p0 = pearson_prefix(c, k, t, m);
        let q0 = squares_prefix(c, m);
        let s0 = sum_prefix(c, m);
        assert(pearson_prefix(c, k, t, n) == p0 + (k * x - t) * (k * x - t));
        assert(squares_prefix(c, n) == q0 + x * x);
        assert(sum_prefix(c, n) == s0 + x);
        assert(p0 + (k * x - t) * (k * x - t) == k * k * (q0 + x * x) - 2 * k * t * (s0 + x) + n
            * t * t && (k * x - t) * (k * x - t) >= 0) by (nonlinear_arith)
            requires
                p0 == k * k * q0 - 2 * k * t * s0 + m * t * t,
                m == n - 1,
        ;
    } else {
        assert(0 == k * k * 0 - 2 * k * t * 0 + 0 * t * t) by (nonlinear_arith);
    }
}

/// Nibble counts of the first `n` seeds, summed over the buckets `0 .. m`.
spec fn bucket_total(s: Seq<u64>, n: nat, m: nat) -> int
    decreases m,
{
    if m == 0 {
        0
    } else {
        bucket_total(s, n, (m - 1) as nat) + nibble_count_prefix(s, n, m - 1)
    }
}

proof fn lemma_bucket_total_step(s: Seq<u64>, n: nat, m: nat)
    requires
        0 < n <= s.len(),
    ensures
        bucket_total(s, n, m) == bucket_total(s, (n - 1) as nat, m) + if nibble(s[n - 1]) < m {
            1int
        } else {
            0int
        },
    decreases m,
{
    if m > 0 {
        lemma_bucket_total_step(s, n, (m - 1) as nat);
    }
}

proof fn lemma_bucket_total_empty(s: Seq<u64>, m: nat)
    ensures
        bucket_total(s, 0, m) == 0,
    decreases m,
{
    if m > 0 {
        lemma_bucket_total_empty(s, (m - 1) as nat);
    }
}

proof fn lemma_bucket_total(s: Seq<u64>, n: nat)
    requires
        n <= s.len(),
    ensures
        bucket_total(s, n, 16) == n,
    decreases n,
{
    if n > 0 {
        let m = (n - 1) as nat;
        lemma_bucket_total(s, m);
        lemma_bucket_total_step(s, n, 16);
        let x = s[m as int];
        assert(x & 15u64 < 16) by (bit_vector);
        assert(nibble(x) < 16);
        assert(bucket_total(s, n, 16) == bucket_total(s, m, 16) + 1);
    } else {
        lemma_bucket_total_empty(s, 16);
    }
}

proof fn lemma_nibble_sums(s: Seq<u64>, m: nat)
    requires
        m <= 16,
    ensures
        sum_prefix(nibble_counts(s), m) == bucket_total(s, s.len(), m),
        0 <= squares_prefix(nibble_counts(s), m) <= s.len() * sum_prefix(nibble_counts(s), m),
    decreases m,
{
    if m > 0 {
        lemma_nibble_sums(s, (m - 1) as nat);
        let c = nibble_counts(s)[m - 1];
        crate::counting::lemma_nibble_count_bound(s, s.len(), m - 1);
        assert(0 <= c * c <= s.len() * c) by (nonlinear_arith)
            requires
                0 <= c <= s.len(),
        ;
        assert(s.len() * (sum_prefix(nibble_counts(s), (m - 1) as nat) + c) == s.len()
            * sum_prefix(nibble_counts(s), (m - 1) as nat) + s.len() * c) by (nonlinear_arith);
    }
}

/// The poker score is the classic poker statistic `(16 / N) sum(c_v^2) - N`
/// over the sixteen low-nibble counts `c_v`: as fractions,
/// `score = (16 sum(c_v^2) - N^2) / N`.
pub proof fn lemma_poker_classic_form(s: Seq<u64>)
    requires
        0 < s.len() <= MAX_SEEDS,
    ensures
        poker_score(s).den as int == 16 * s.len(),
        poker_score(s).num as int * s.len() == (16 * squares_prefix(nibble_counts(s), 16) - s.len()
            * s.len()) * poker_score(s).den,
{
    let c = nibble_counts(s);
    let n = s.len() as int;
    lemma_bucket_total(s, s.len());
    lemma_nibble_sums(s, 16);
    lemma_pearson_expanded(c, 16, n, 16);
    let sq = squares_prefix(c, 16);
    assert(sum_prefix(c, 16) == n);
    let p = pearson_prefix(c, 16, n, 16);
    assert(p == 16 * (16 * sq - n * n)) by (nonlinear_arith)
        requires
            p == 16 * 16 * sq - 2 * 16 * n * n + 16 * n * n,
    ;
    assert(p <= 256 * 0x1_0000_0000 * 0x1_0000_0000) by (nonlinear_arith)
        requires
            p == 16 * (16 * sq - n * n),
            0 <= sq <= n * n,
            0 < n <= 0x1_0000_0000,
    ;
    assert(p * n == (16 * sq - n * n) * (16 * n)) by (nonlinear_arith)
        requires
            p == 16 * (16 * sq - n * n),
    ;
}

} // verus!
