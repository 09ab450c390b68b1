//! The test units that count values in buckets: poker, block chi-square and
//! low-nibble pattern bias.
use vstd::prelude::*;
use crate::record::{
    Fraction, Thresholds, TestKind, Details, TestResult, zero, ranged, ranged_result, no_data,
    no_data_result, invalid_configuration, invalid_configuration_result,
};

verus! {

/// The largest sequence whose bucket counts the chi-square tests accept:
/// every count and every cross product then fits in 128 bits.
pub const MAX_SEEDS: u64 = 0x1_0000_0000;

/// `(k * c[v] - t)^2` summed over the first `n` buckets.
pub open spec fn pearson_prefix(c: Seq<int>, k: int, t: int, n: nat) -> int
    recommends
        n <= c.len(),
    decreases n,
{
    if n == 0 {
        0
    } else {
        pearson_prefix(c, k, t, (n - 1) as nat) + (k * c[n - 1] - t) * (k * c[n - 1] - t)
    }
}

/// Pearson's chi-square of the bucket counts `c` against `t` items spread
/// uniformly over the `K = c.len()` buckets.  With expected count `E = t / K`,
/// the sum of `(c_v - E)^2 / E` is the sum of `(K c_v - t)^2` over `K t`.
pub open spec fn chi_square(c: Seq<int>, t: int) -> Fraction {
    Fraction {
        num: pearson_prefix(c, c.len() as int, t, c.len()) as u128,
        den: (c.len() * t) as u128,
    }
}

/// The counts of `c` as mathematical integers.
pub open spec fn as_ints(c: Seq<u64>) -> Seq<int> {
    c.map_values(|x: u64| x as int)
}

proof fn lemma_square_step(k: int, c: int, t: int, d: int)
    requires
        1 <= k <= 0x1_0000,
        0 <= c <= t,
        t <= 0x40_0000_0000,
        d == if k * c >= t { k * c - t } else { t - k * c },
    ensures
        d * d == (k * c - t) * (k * c - t),
        0 <= d <= 0x40_0000_0000_0000,
        d * d <= 0x1000_0000_0000_0000_0000_0000_0000,
{
    assert(k * c <= k * t) by (nonlinear_arith)
        requires
            1 <= k,
            0 <= c <= t,
    ;
    assert(k * t <= 0x40_0000_0000_0000) by (nonlinear_arith)
        requires
            1 <= k <= 0x1_0000,
            0 <= t <= 0x40_0000_0000,
    ;
    assert(d * d == (k * c - t) * (k * c - t)) by (nonlinear_arith)
        requires
            d == k * c - t || d == t - k * c,
    ;
    assert(d * d <= 0x40_0000_0000_0000 * 0x40_0000_0000_0000) by (nonlinear_arith)
        requires
            0 <= d <= 0x40_0000_0000_0000,
    ;
}

/// Pearson's chi-square of `counts` against `total` items.
pub fn chi_square_of(counts: &Vec<u64>, total: u64) -> (r: Fraction)
    requires
        1 <= counts@.len() <= 0x1_0000,
        1 <= total <= 0x40_0000_0000,
        forall|v: int| 0 <= v < counts@.len() ==> counts@[v] <= total,
    ensures
        r == chi_square(as_ints(counts@), total as int),
        r.wf(),
        r.den <= 0x40_0000_0000_0000,
{
    let k = counts.len() as u128;
    let t = total as u128;
    let mut sum: u128 = 0;
    let mut v: usize = 0;
    while v < counts.len()
        invariant
            k == counts@.len(),
            1 <= k <= 0x1_0000,
            t == total,
            1 <= t <= 0x40_0000_0000,
            forall|w: int| 0 <= w < counts@.len() ==> counts@[w] <= total,
            v <= counts@.len(),
            sum == pearson_prefix(as_ints(counts@), k as int, t as int, v as nat),
            sum <= v * 0x1000_0000_0000_0000_0000_0000_0000,
        decreases counts@.len() - v,
    {
        let c = counts[v] as u128;
        proof {
            assert(k * c <= k * t) by (nonlinear_arith)
                requires
                    1 <= k,
                    c <= t,
            ;
            assert(k * t <= 0x40_0000_0000_0000) by (nonlinear_arith)
                requires
                    1 <= k <= 0x1_0000,
                    0 <= t <= 0x40_0000_0000,
            ;
        }
        let kc = k * c;
        let d = if kc >= t {
            kc - t
        } else {
            t - kc
        };
        proof {
            lemma_square_step(k as int, c as int, t as int, d as int);
            assert(as_ints(counts@)[v as int] == c);
            assert(sum + d * d <= (v + 1) * 0x1000_0000_0000_0000_0000_0000_0000) by (nonlinear_arith)
                requires
                    sum <= v * 0x1000_0000_0000_0000_0000_0000_0000,
                    d * d <= 0x1000_0000_0000_0000_0000_0000_0000,
                    v < 0x1_0000,
            ;
        }
        let sq = d * d;
        proof {
            assert((v + 1) * 0x1000_0000_0000_0000_0000_0000_0000 <= 0x1000_0000_0000_0000_0000_0000_0000_0000) by (nonlinear_arith)
                requires
                    v < 0x1_0000,
            ;
        }
        sum = sum + sq;
        v = v + 1;
    }
    proof {
        assert(k * t <= 0x40_0000_0000_0000) by (nonlinear_arith)
            requires
                1 <= k <= 0x1_0000,
                1 <= t <= 0x40_0000_0000,
        ;
        assert(k * t >= 1) by (nonlinear_arith)
            requires
                1 <= k,
                1 <= t,
        ;
    }
    Fraction::new(sum, k * t)
}

/// A vector of `n` zero counts.
pub fn zero_counts(n: usize) -> (r: Vec<u64>)
    ensures
        r@.len() == n,
        forall|v: int| 0 <= v < n ==> r@[v] == 0,
{
    let mut r: Vec<u64> = Vec::new();
    let mut i: usize = 0;
    while i < n
        invariant
            i <= n,
            r@.len() == i,
            forall|v: int| 0 <= v < i ==> r@[v] == 0,
        decreases n - i,
    {
        r.push(0);
        i = i + 1;
    }
    r
}

// ---------------------------------------------------------------------------
// Low-nibble buckets

/// The low four bits of `x`.
pub open spec fn nibble(x: u64) -> u64 {
    x & 15u64
}

/// Number of the first `n` seeds whose low nibble is `v`.
pub open spec fn nibble_count_prefix(s: Seq<u64>, n: nat, v: int) -> nat
    recommends
        n <= s.len(),
    decreases n,
{
    if n == 0 {
        0
    } else {
        nibble_count_prefix(s, (n - 1) as nat, v) + if nibble(s[n - 1]) == v {
            1nat
        } else {
            0nat
        }
    }
}

/// The sixteen low-nibble counts of the sequence.
pub open spec fn nibble_counts(s: Seq<u64>) -> Seq<int> {
    Seq::new(16, |v: int| nibble_count_prefix(s, s.len(), v) as int)
}

pub proof fn lemma_nibble_count_bound(s: Seq<u64>, n: nat, v: int)
    requires
        n <= s.len(),
    ensures
        nibble_count_prefix(s, n, v) <= n,
    decreases n,
{
    if n > 0 {
        lemma_nibble_count_bound(s, (n - 1) as nat, v);
    }
}

/// Counts, for each of the sixteen values of the low nibble, the seeds that
/// carry it.
pub fn count_nibbles(seeds: &[u64]) -> (r: Vec<u64>)
    ensures
        as_ints(r@) == nibble_counts(seeds@),
        r@.len() == 16,
        forall|v: int| 0 <= v < 16 ==> r@[v] <= seeds@.len(),
{
    let n = seeds.len();
    let mut counts = zero_counts(16);
    let mut i: usize = 0;
    while i < n
        invariant
            n == seeds@.len(),
            i <= n,
            counts@.len() == 16,
            forall|v: int|
                0 <= v < 16 ==> counts@[v] == nibble_count_prefix(seeds@, i as nat, v),
            forall|v: int| 0 <= v < 16 ==> counts@[v] <= i,
        decreases n - i,
    {
        let x = seeds[i];
        let b = x & 15;
        assert(x & 15u64 < 16) by (bit_vector);
        let c = counts[b as usize];
        counts.set(b as usize, c + 1);
        i = i + 1;
    }
    assert(as_ints(counts@) =~= nibble_counts(seeds@));
    counts
}

// ---------------------------------------------------------------------------
// Poker

/// The poker statistic on the low nibbles, in Pearson's form over sixteen
/// buckets and `N` items; it equals `(16 / N) * sum(c_v^2) - N`.
pub open spec fn poker_score(s: Seq<u64>) -> Fraction {
    if s.len() == 0 {
        zero()
    } else {
        chi_square(nibble_counts(s), s.len() as int)
    }
}

pub open spec fn poker_result(s: Seq<u64>) -> TestResult {
    ranged_result(
        TestKind::Poker,
        poker_score(s),
        Fraction { num: 10, den: 1 },
        Fraction { num: 22, den: 1 },
        if s.len() == 0 {
            Details::NoData
        } else {
            Details::Measured
        },
    )
}

/// Poker test: passes when the statistic lies in `[10, 22]`; an empty
/// sequence scores zero and fails.
pub fn test_poker(seeds: &[u64]) -> (r: TestResult)
    requires
        seeds@.len() <= MAX_SEEDS,
    ensures
        r == poker_result(seeds@),
{
    let n = seeds.len();
    let (score, details) = if n == 0 {
        (Fraction::new(0, 1), Details::NoData)
    } else {
        let counts = count_nibbles(seeds);
        (chi_square_of(&counts, n as u64), Details::Measured)
    };
    ranged(TestKind::Poker, score, Fraction::new(10, 1), Fraction::new(22, 1), details)
}

// ---------------------------------------------------------------------------
// Block chi-square

/// Number of distinct values of a block of `b` bits: `2^b`.
pub open spec fn block_values(b: nat) -> nat {
    (1u64 << (b as u64)) as nat
}

/// Block `j` of `b` bits of `x`, counting from the low end.
pub open spec fn block_of(x: u64, b: nat, j: nat) -> u64 {
    (x >> ((b * j) as u64)) & (((1u64 << (b as u64)) - 1) as u64)
}

/// Number of whole blocks of `b` bits in a 64-bit seed; leftover high bits
/// belong to no block.
pub open spec fn blocks_per_seed(b: nat) -> nat {
    64nat / b
}

/// Number of the first `j` blocks of `x` whose value is `v`.
pub open spec fn seed_block_count(x: u64, b: nat, j: nat, v: int) -> nat
    decreases j,
{
    if j == 0 {
        0
    } else {
        seed_block_count(x, b, (j - 1) as nat, v) + if block_of(x, b, (j - 1) as nat) == v {
            1nat
        } else {
            0nat
        }
    }
}

/// Number of blocks of value `v` in the first `n` seeds.
pub open spec fn block_count_prefix(s: Seq<u64>, b: nat, n: nat, v: int) -> nat
    recommends
        n <= s.len(),
    decreases n,
{
    if n == 0 {
        0
    } else {
        block_count_prefix(s, b, (n - 1) as nat, v) + seed_block_count(
            s[n - 1],
            b,
            blocks_per_seed(b),
            v,
        )
    }
}

/// The count of every block value over the whole sequence.
pub open spec fn block_counts(s: Seq<u64>, b: nat) -> Seq<int> {
    Seq::new(block_values(b), |v: int| block_count_prefix(s, b, s.len(), v) as int)
}

pub open spec fn blocks_result(s: Seq<u64>, b: nat) -> TestResult {
    if b < 1 || b > 16 {
        invalid_configuration_result(TestKind::Blocks)
    } else if s.len() == 0 {
        no_data_result(TestKind::Blocks)
    } else {
        ranged_result(
            TestKind::Blocks,
            chi_square(block_counts(s, b), (blocks_per_seed(b) * s.len()) as int),
            zero(),
            Fraction::whole(25),
            Details::Measured,
        )
    }
}

pub proof fn lemma_block_bounds(x: u64, b: u64)
    requires
        1 <= b <= 16,
    ensures
        2 <= (1u64 << b) <= 0x1_0000,
        x & (((1u64 << b) - 1) as u64) < (1u64 << b),
{
    assert(2 <= (1u64 << b) <= 0x1_0000) by (bit_vector)
        requires
            1 <= b <= 16,
    ;
    assert(x & (((1u64 << b) - 1) as u64) < (1u64 << b)) by (bit_vector)
        requires
            1 <= b <= 16,
    ;
}

pub proof fn lemma_per_seed_bounds(b: u64, per: u64)
    requires
        1 <= b <= 16,
        per == 64u64 / b,
    ensures
        per == blocks_per_seed(b as nat),
        4 <= per <= 64,
        b * per <= 64,
{
    assert(4 <= per <= 64 && b * per <= 64) by (nonlinear_arith)
        requires
            1 <= b <= 16,
            per == 64u64 / b,
    ;
}

/// Counts the values of the blocks of `b` bits over all seeds.
fn count_blocks(seeds: &[u64], b: u64) -> (r: Vec<u64>)
    requires
        1 <= b <= 16,
        seeds@.len() <= MAX_SEEDS,
    ensures
        as_ints(r@) == block_counts(seeds@, b as nat),
        r@.len() == block_values(b as nat),
        forall|v: int|
            0 <= v < r@.len() ==> r@[v] <= blocks_per_seed(b as nat) * seeds@.len(),
{
    let n = seeds.len();
    proof {
        lemma_block_bounds(0, b);
    }
    let k: u64 = 1u64 << b;
    let mask: u64 = k - 1;
    let per: u64 = 64 / b;
    proof {
        lemma_per_seed_bounds(b, per);
        assert(per * n <= 64 * 0x1_0000_0000) by (nonlinear_arith)
            requires
                per <= 64,
                n <= 0x1_0000_0000,
        ;
    }
    let mut counts = zero_counts(k as usize);
    let mut done: u64 = 0;
    let mut i: usize = 0;
    while i < n
        invariant
            n == seeds@.len(),
            n <= MAX_SEEDS,
            1 <= b <= 16,
            k == block_values(b as nat),
            2 <= k <= 0x1_0000,
            mask == k - 1,
            per == blocks_per_seed(b as nat),
            1 <= per <= 64,
            b * per <= 64,
            per * n <= 64 * 0x1_0000_0000,
            i <= n,
            done == per * i,
            counts@.len() == k,
            forall|v: int|
                0 <= v < k ==> counts@[v] == block_count_prefix(seeds@, b as nat, i as nat, v),
            forall|v: int| 0 <= v < k ==> counts@[v] <= done,
        decreases n - i,
    {
        let x = seeds[i];
        let mut j: u64 = 0;
        proof {
            assert(per * i + per <= per * n) by (nonlinear_arith)
                requires
                    i < n,
            ;
        }
        while j < per
            invariant
                n == seeds@.len(),
                1 <= b <= 16,
                k == block_values(b as nat),
                2 <= k <= 0x1_0000,
                mask == k - 1,
                per == blocks_per_seed(b as nat),
                1 <= per <= 64,
                b * per <= 64,
                per * i + per <= per * n,
                per * n <= 64 * 0x1_0000_0000,
                i < n,
                x == seeds@[i as int],
                j <= per,
                done == per * i + j,
                counts@.len() == k,
                forall|v: int|
                    0 <= v < k ==> counts@[v] == block_count_prefix(seeds@, b as nat, i as nat, v)
                        + seed_block_count(x, b as nat, j as nat, v),
                forall|v: int| 0 <= v < k ==> counts@[v] <= done,
            decreases per - j,
        {
            proof {
                assert(b * j + b <= 64) by (nonlinear_arith)
                    requires
                        j < per,
                        b * per <= 64,
                ;
                lemma_block_bounds(x >> (b * j), b);
            }
            let block = (x >> (b * j)) & mask;
            let c = counts[block as usize];
            counts.set(block as usize, c + 1);
            done = done + 1;
            j = j + 1;
        }
        proof {
            assert(per * i + per == per * (i + 1)) by (nonlinear_arith);
        }
        i = i + 1;
    }
    assert(as_ints(counts@) =~= block_counts(seeds@, b as nat));
    counts
}

/// Block chi-square test: splits every seed into blocks of `block_size` bits,
/// counts each block value and passes when Pearson's chi-square against the
/// uniform distribution is at most 25.  A block size outside `1 ..= 16` gives
/// a configuration record; an empty sequence gives a no-data record.
pub fn test_blocs(seeds: &[u64], block_size: usize) -> (r: TestResult)
    requires
        seeds@.len() <= MAX_SEEDS,
    ensures
        r == blocks_result(seeds@, block_size as nat),
{
    if block_size < 1 || block_size > 16 {
        return invalid_configuration(TestKind::Blocks);
    }
    let n = seeds.len();
    if n == 0 {
        return no_data(TestKind::Blocks);
    }
    let b = block_size as u64;
    let counts = count_blocks(seeds, b);
    let per: u64 = 64 / b;
    proof {
        lemma_per_seed_bounds(b, per);
        assert(1 <= per * n <= 64 * 0x1_0000_0000) by (nonlinear_arith)
            requires
                1 <= per <= 64,
                1 <= n <= 0x1_0000_0000,
        ;
        lemma_block_bounds(0, b);
    }
    let total = per * (n as u64);
    let score = chi_square_of(&counts, total);
    assert(25 * score.den <= u128::MAX) by (nonlinear_arith)
        requires
            score.den <= 0x40_0000_0000_0000,
    ;
    ranged(TestKind::Blocks, score, Fraction::new(0, 1), Fraction::new(25, 1), Details::Measured)
}

// ---------------------------------------------------------------------------
// Pattern bias

/// Largest of the first `n` counts of `c`; zero when `n = 0`.
pub open spec fn max_prefix(c: Seq<int>, n: nat) -> int
    recommends
        n <= c.len(),
    decreases n,
{
    if n == 0 {
        0
    } else if c[n - 1] > max_prefix(c, (n - 1) as nat) {
        c[n - 1]
    } else {
        max_prefix(c, (n - 1) as nat)
    }
}

/// Number of the first `n` counts of `c` that are positive.
pub open spec fn used_prefix(c: Seq<int>, n: nat) -> nat
    recommends
        n <= c.len(),
    decreases n,
{
    if n == 0 {
        0
    } else {
        used_prefix(c, (n - 1) as nat) + if c[n - 1] > 0 {
            1nat
        } else {
            0nat
        }
    }
}

/// Share of the seeds that fall in the fullest low-nibble bucket.
pub open spec fn bias_score(s: Seq<u64>) -> Fraction {
    Fraction { num: max_prefix(nibble_counts(s), 16) as u128, den: s.len() as u128 }
}

/// Number of low-nibble buckets that some seed falls in.
pub open spec fn used_buckets(s: Seq<u64>) -> nat {
    used_prefix(nibble_counts(s), 16)
}

pub open spec fn pattern_bias_result(s: Seq<u64>) -> TestResult {
    if s.len() == 0 {
        no_data_result(TestKind::PatternBias)
    } else {
        TestResult {
            kind: TestKind::PatternBias,
            passed: used_buckets(s) > 10 && bias_score(s).lt(Fraction { num: 1, den: 5 }),
            score: bias_score(s),
            details: Details::Buckets { used: used_buckets(s) as u64 },
            thresholds: Some(Thresholds { low: zero(), high: Fraction { num: 1, den: 5 } }),
        }
    }
}

/// Pattern-bias analysis of the low nibbles: passes when more than ten of the
/// sixteen buckets are used and the fullest holds under a fifth of the seeds.
pub fn analyze_seed_patterns(seeds: &[u64]) -> (r: TestResult)
    ensures
        r == pattern_bias_result(seeds@),
{
    let n = seeds.len();
    if n == 0 {
        return no_data(TestKind::PatternBias);
    }
    let counts = count_nibbles(seeds);
    let ghost c = as_ints(counts@);
    let mut max: u64 = 0;
    let mut used: u64 = 0;
    let mut v: usize = 0;
    while v < 16
        invariant
            counts@.len() == 16,
            c == as_ints(counts@),
            forall|w: int| 0 <= w < 16 ==> counts@[w] <= n,
            v <= 16,
            max == max_prefix(c, v as nat),
            max <= n,
            used == used_prefix(c, v as nat),
            used <= v,
        decreases 16 - v,
    {
        let count = counts[v];
        if count > max {
            max = count;
        }
        if count > 0 {
            used = used + 1;
        }
        v = v + 1;
    }
    let score = Fraction::new(max as u128, n as u128);
    let low_bias = score.less_than(&Fraction::new(1, 5));
    TestResult {
        kind: TestKind::PatternBias,
        passed: used > 10 && low_bias,
        score,
        details: Details::Buckets { used },
        thresholds: Some(Thresholds { low: Fraction::new(0, 1), high: Fraction::new(1, 5) }),
    }
}

} // verus!
