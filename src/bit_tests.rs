//! The test units that look at the bits of the seeds: frequency, entropy,
//! periodicity, correlation and the longest run of set bits.
use vstd::prelude::*;
use crate::bits::{bit_set, popcount, count_ones, count_zeros};
use crate::record::{
    Fraction, TestKind, Details, TestResult, Outcome, zero, ranged, ranged_result,
};

verus! {

/// Set bits in the first `n` seeds of `s`.
pub open spec fn ones_prefix(s: Seq<u64>, n: nat) -> nat
    recommends
        n <= s.len(),
    decreases n,
{
    if n == 0 {
        0
    } else {
        ones_prefix(s, (n - 1) as nat) + popcount(s[n - 1])
    }
}

/// Set bits over the whole sequence.
pub open spec fn total_ones(s: Seq<u64>) -> nat {
    ones_prefix(s, s.len())
}

/// Set bits of `s[k] ^ s[k + 1]`, summed over the first `n` adjacent pairs.
pub open spec fn differing_prefix(s: Seq<u64>, n: nat) -> nat
    recommends
        n < s.len(),
    decreases n,
{
    if n == 0 {
        0
    } else {
        differing_prefix(s, (n - 1) as nat) + popcount(s[n - 1] ^ s[n as int])
    }
}

/// Clear bits of `s[k] ^ s[k + 1]` (bits on which the pair agrees), summed
/// over the first `n` adjacent pairs.
pub open spec fn agreeing_prefix(s: Seq<u64>, n: nat) -> nat
    recommends
        n < s.len(),
    decreases n,
{
    if n == 0 {
        0
    } else {
        agreeing_prefix(s, (n - 1) as nat) + (64 - popcount(s[n - 1] ^ s[n as int])) as nat
    }
}

/// Number of adjacent pairs of `s`.
pub open spec fn pair_count(s: Seq<u64>) -> nat {
    if s.len() < 2 {
        0
    } else {
        (s.len() - 1) as nat
    }
}

/// Length of the run of set bits that ends just below bit `n` of `x`.
pub open spec fn run_ending_at(x: u64, n: nat) -> nat
    decreases n,
{
    if n == 0 {
        0
    } else if bit_set(x, (n - 1) as nat) {
        run_ending_at(x, (n - 1) as nat) + 1
    } else {
        0
    }
}

/// Longest run of consecutive set bits among bits `0 .. n` of `x`.
pub open spec fn longest_run_below(x: u64, n: nat) -> nat
    decreases n,
{
    if n == 0 {
        0
    } else {
        let before = longest_run_below(x, (n - 1) as nat);
        let here = run_ending_at(x, n);
        if here > before {
            here
        } else {
            before
        }
    }
}

/// Longest run of consecutive set bits of `x`, bit 0 to bit 63, no wraparound.
pub open spec fn longest_run(x: u64) -> nat {
    longest_run_below(x, 64)
}

/// Longest run of set bits over the first `n` seeds.
pub open spec fn longest_run_prefix(s: Seq<u64>, n: nat) -> nat
    recommends
        n <= s.len(),
    decreases n,
{
    if n == 0 {
        0
    } else {
        let before = longest_run_prefix(s, (n - 1) as nat);
        let here = longest_run(s[n - 1]);
        if here > before {
            here
        } else {
            before
        }
    }
}

pub proof fn lemma_run_bounds(x: u64, n: nat)
    ensures
        run_ending_at(x, n) <= n,
        longest_run_below(x, n) <= n,
    decreases n,
{
    if n > 0 {
        lemma_run_bounds(x, (n - 1) as nat);
    }
}

pub proof fn lemma_prefix_bounds(s: Seq<u64>, n: nat)
    ensures
        ones_prefix(s, n) <= 64 * n,
        differing_prefix(s, n) <= 64 * n,
        agreeing_prefix(s, n) <= 64 * n,
        longest_run_prefix(s, n) <= 64,
    decreases n,
{
    if n > 0 {
        lemma_prefix_bounds(s, (n - 1) as nat);
        crate::bits::lemma_ones_below_bound(s[n - 1], 64);
        crate::bits::lemma_ones_below_bound(s[n - 1] ^ s[n as int], 64);
        lemma_run_bounds(s[n - 1], 64);
    }
}

// ---------------------------------------------------------------------------
// Frequency

/// Fraction of set bits over all bits: `ones / (64 N)`; zero when `N = 0`.
pub open spec fn frequency_score(s: Seq<u64>) -> Fraction {
    if s.len() == 0 {
        zero()
    } else {
        Fraction { num: total_ones(s) as u128, den: (64 * s.len()) as u128 }
    }
}

/// Details of a measurement on `s`: `NoData` when `s` is empty.
pub open spec fn measured_details(s: Seq<u64>) -> Details {
    if s.len() == 0 {
        Details::NoData
    } else {
        Details::Measured
    }
}

pub open spec fn frequency_result(s: Seq<u64>) -> TestResult {
    ranged_result(
        TestKind::Frequency,
        frequency_score(s),
        Fraction { num: 45, den: 100 },
        Fraction { num: 55, den: 100 },
        measured_details(s),
    )
}

/// Counts the set bits of all seeds; the count is at most `64 * seeds.len()`.
pub fn count_all_ones(seeds: &[u64]) -> (r: u128)
    ensures
        r == total_ones(seeds@),
        r <= 64 * seeds@.len(),
{
    let n = seeds.len();
    let mut total: u128 = 0;
    let mut i: usize = 0;
    while i < n
        invariant
            n == seeds@.len(),
            i <= n,
            total == ones_prefix(seeds@, i as nat),
            total <= 64 * i,
        decreases n - i,
    {
        let c = count_ones(seeds[i]);
        total = total + c as u128;
        i = i + 1;
    }
    total
}

/// Frequency test: passes when the fraction of set bits lies in
/// `[0.45, 0.55]`; an empty sequence scores zero and fails.
pub fn test_frequence(seeds: &[u64]) -> (r: TestResult)
    ensures
        r == frequency_result(seeds@),
{
    let ones = count_all_ones(seeds);
    let n = seeds.len();
    let (score, details) = if n == 0 {
        (Fraction::new(0, 1), Details::NoData)
    } else {
        (Fraction::new(ones, 64 * (n as u128)), Details::Measured)
    };
    ranged(
        TestKind::Frequency,
        score,
        Fraction::new(45, 100),
        Fraction::new(55, 100),
        details,
    )
}

// ---------------------------------------------------------------------------
// Entropy

/// The binary entropy `H(p)` vanishes when `p` is 0 or 1: the record says so.
/// Otherwise the outcome hands over the bit counts that `H` is computed from.
pub open spec fn entropy_outcome(s: Seq<u64>) -> Outcome {
    let ones = total_ones(s);
    let bits = 64 * s.len();
    if ones == 0 || ones == bits {
        Outcome::Decided(
            ranged_result(
                TestKind::Entropy,
                zero(),
                Fraction { num: 99, den: 100 },
                Fraction { num: 101, den: 100 },
                measured_details(s),
            ),
        )
    } else {
        Outcome::Entropy { ones: ones as u128, bits: bits as u128 }
    }
}

/// Shannon entropy test on the proportion of set bits; passes when the
/// entropy lies in `[0.99, 1.01]`.
pub fn test_entropy(seeds: &[u64]) -> (r: Outcome)
    ensures
        r == entropy_outcome(seeds@),
{
    let ones = count_all_ones(seeds);
    let n = seeds.len();
    let bits = 64 * (n as u128);
    if ones == 0 || ones == bits {
        let details = if n == 0 {
            Details::NoData
        } else {
            Details::Measured
        };
        Outcome::Decided(
            ranged(
                TestKind::Entropy,
                Fraction::new(0, 1),
                Fraction::new(99, 100),
                Fraction::new(101, 100),
                details,
            ),
        )
    } else {
        Outcome::Entropy { ones, bits }
    }
}

// ---------------------------------------------------------------------------
// Periodicity

/// Average fraction of agreeing bits over adjacent pairs; zero without pairs.
pub open spec fn periodicity_score(s: Seq<u64>) -> Fraction {
    if s.len() < 2 {
        zero()
    } else {
        Fraction {
            num: agreeing_prefix(s, pair_count(s)) as u128,
            den: (64 * pair_count(s)) as u128,
        }
    }
}

/// Details of a measurement on the adjacent pairs of `s`.
pub open spec fn pair_details(s: Seq<u64>) -> Details {
    if s.len() < 2 {
        Details::NoData
    } else {
        Details::Measured
    }
}

pub open spec fn periodicity_result(s: Seq<u64>) -> TestResult {
    ranged_result(
        TestKind::Periodicity,
        periodicity_score(s),
        Fraction { num: 3, den: 10 },
        Fraction { num: 7, den: 10 },
        pair_details(s),
    )
}

/// Sums, over the adjacent pairs, the bits on which the pair agrees and the
/// bits on which it differs.
pub fn count_pair_bits(seeds: &[u64]) -> (r: (u128, u128))
    ensures
        seeds@.len() >= 2 ==> r.0 == agreeing_prefix(seeds@, pair_count(seeds@)),
        seeds@.len() >= 2 ==> r.1 == differing_prefix(seeds@, pair_count(seeds@)),
        r.0 <= 64 * pair_count(seeds@),
        r.1 <= 64 * pair_count(seeds@),
{
    let n = seeds.len();
    if n < 2 {
        return (0, 0);
    }
    let mut agree: u128 = 0;
    let mut differ: u128 = 0;
    let mut i: usize = 0;
    while i < n - 1
        invariant
            n == seeds@.len(),
            n >= 2,
            i <= n - 1,
            agree == agreeing_prefix(seeds@, i as nat),
            differ == differing_prefix(seeds@, i as nat),
            agree <= 64 * i,
            differ <= 64 * i,
        decreases n - 1 - i,
    {
        let x = seeds[i] ^ seeds[i + 1];
        agree = agree + count_zeros(x) as u128;
        differ = differ + count_ones(x) as u128;
        i = i + 1;
    }
    (agree, differ)
}

/// Periodicity test: passes when the average fraction of bits shared by
/// adjacent seeds lies in `[0.3, 0.7]`; fewer than two seeds score zero.
pub fn test_periodicity(seeds: &[u64]) -> (r: TestResult)
    ensures
        r == periodicity_result(seeds@),
{
    let n = seeds.len();
    let (agree, _) = count_pair_bits(seeds);
    let (score, details) = if n < 2 {
        (Fraction::new(0, 1), Details::NoData)
    } else {
        (Fraction::new(agree, 64 * ((n - 1) as u128)), Details::Measured)
    };
    ranged(
        TestKind::Periodicity,
        score,
        Fraction::new(3, 10),
        Fraction::new(7, 10),
        details,
    )
}

// ---------------------------------------------------------------------------
// Correlation

/// Average Hamming distance of adjacent seeds over 64; zero without pairs.
pub open spec fn correlation_score(s: Seq<u64>) -> Fraction {
    if s.len() < 2 {
        zero()
    } else {
        Fraction {
            num: differing_prefix(s, pair_count(s)) as u128,
            den: (64 * pair_count(s)) as u128,
        }
    }
}

pub open spec fn correlation_result(s: Seq<u64>) -> TestResult {
    ranged_result(
        TestKind::Correlation,
        correlation_score(s),
        Fraction { num: 45, den: 100 },
        Fraction { num: 55, den: 100 },
        pair_details(s),
    )
}

/// Correlation test: passes when the average fraction of bits that differ
/// between adjacent seeds lies in `[0.45, 0.55]`; fewer than two seeds score
/// zero.
pub fn test_correlation(seeds: &[u64]) -> (r: TestResult)
    ensures
        r == correlation_result(seeds@),
{
    let n = seeds.len();
    let (_, differ) = count_pair_bits(seeds);
    let (score, details) = if n < 2 {
        (Fraction::new(0, 1), Details::NoData)
    } else {
        (Fraction::new(differ, 64 * ((n - 1) as u128)), Details::Measured)
    };
    ranged(
        TestKind::Correlation,
        score,
        Fraction::new(45, 100),
        Fraction::new(55, 100),
        details,
    )
}

// ---------------------------------------------------------------------------
// Sequence length

/// Longest run of set bits in one seed.
pub fn max_run(x: u64) -> (r: u64)
    ensures
        r == longest_run(x),
        r <= 64,
{
    let mut best: u64 = 0;
    let mut current: u64 = 0;
    let mut i: u64 = 0;
    while i < 64
        invariant
            i <= 64,
            current == run_ending_at(x, i as nat),
            best == longest_run_below(x, i as nat),
        decreases 64 - i,
    {
        proof {
            lemma_run_bounds(x, i as nat);
        }
        if (x >> i) & 1 == 1 {
            current = current + 1;
        } else {
            current = 0;
        }
        if current > best {
            best = current;
        }
        i = i + 1;
    }
    proof {
        lemma_run_bounds(x, 64);
    }
    best
}

pub open spec fn sequence_length_result(s: Seq<u64>) -> TestResult {
    ranged_result(
        TestKind::SequenceLength,
        Fraction::whole(longest_run_prefix(s, s.len()) as int),
        Fraction { num: 10, den: 1 },
        Fraction { num: 18, den: 1 },
        measured_details(s),
    )
}

/// Sequence-length test: the score is the longest run of consecutive set bits
/// in any one seed; passes when it lies in `[10, 18]`.
pub fn test_sequence_length(seeds: &[u64]) -> (r: TestResult)
    ensures
        r == sequence_length_result(seeds@),
{
    let n = seeds.len();
    let mut best: u64 = 0;
    let mut i: usize = 0;
    while i < n
        invariant
            n == seeds@.len(),
            i <= n,
            best == longest_run_prefix(seeds@, i as nat),
            best <= 64,
        decreases n - i,
    {
        let here = max_run(seeds[i]);
        if here > best {
            best = here;
        }
        i = i + 1;
    }
    let details = if n == 0 {
        Details::NoData
    } else {
        Details::Measured
    };
    ranged(
        TestKind::SequenceLength,
        Fraction::new(best as u128, 1),
        Fraction::new(10, 1),
        Fraction::new(18, 1),
        details,
    )
}

} // verus!
