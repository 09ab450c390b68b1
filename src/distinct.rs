//! The test units that count distinct values: collision rate and
//! imprevisibility of the differences between adjacent seeds.
use vstd::prelude::*;
use std::collections::HashSet;
use crate::record::{Fraction, TestKind, Details, TestResult, Thresholds, zero, ranged, ranged_result};

verus! {

broadcast use vstd::std_specs::hash::group_hash_axioms;

/// Number of distinct values in `s`.
pub open spec fn distinct_count(s: Seq<u64>) -> nat {
    s.to_set().len()
}

/// Counts the distinct values of `values`.
pub fn count_distinct(values: &[u64]) -> (r: usize)
    ensures
        r == distinct_count(values@),
        r <= values@.len(),
{
    let n = values.len();
    let mut seen: HashSet<u64> = HashSet::new();
    let mut i: usize = 0;
    proof {
        assert(values@.take(0).to_set() =~= Set::<u64>::empty());
    }
    while i < n
        invariant
            n == values@.len(),
            i <= n,
            seen@ == values@.take(i as int).to_set(),
        decreases n - i,
    {
        proof {
            assert(values@.take(i as int + 1) =~= values@.take(i as int).push(values@[i as int]));
            values@.take(i as int).lemma_push_to_set_commute(values@[i as int]);
        }
        seen.insert(values[i]);
        i = i + 1;
    }
    proof {
        assert(values@.take(n as int) =~= values@);
        values@.lemma_cardinality_of_set();
    }
    seen.len()
}

// ---------------------------------------------------------------------------
// Collision

/// Percentage of the seeds that repeat an earlier one: `100 (N - d) / N` with
/// `d` distinct values; 100 for an empty sequence.
pub open spec fn collision_score(s: Seq<u64>) -> Fraction {
    if s.len() == 0 {
        Fraction::whole(100)
    } else {
        Fraction { num: (100 * (s.len() - distinct_count(s))) as u128, den: s.len() as u128 }
    }
}

pub open spec fn collision_result(s: Seq<u64>) -> TestResult {
    ranged_result(
        TestKind::Collision,
        collision_score(s),
        zero(),
        Fraction::whole(1),
        if s.len() == 0 {
            Details::NoData
        } else {
            Details::Collisions { total: s.len() as u64, distinct: distinct_count(s) as u64 }
        },
    )
}

/// Collision test: passes when at most one percent of the seeds repeat an
/// earlier one.  An empty sequence scores 100 and fails, with `NoData`
/// details.
pub fn test_collisions(seeds: &[u64]) -> (r: TestResult)
    requires
        seeds@.len() <= u64::MAX,
    ensures
        r == collision_result(seeds@),
{
    let n = seeds.len();
    let (score, details) = if n == 0 {
        (Fraction::new(100, 1), Details::NoData)
    } else {
        let distinct = count_distinct(seeds);
        (
            Fraction::new(100 * ((n - distinct) as u128), n as u128),
            Details::Collisions { total: n as u64, distinct: distinct as u64 },
        )
    };
    assert(score.comparable(Fraction { num: 1, den: 1 })) by (nonlinear_arith)
        requires
            score.num <= u128::MAX,
            score.den <= u128::MAX,
    ;
    ranged(TestKind::Collision, score, Fraction::new(0, 1), Fraction::new(1, 1), details)
}

// ---------------------------------------------------------------------------
// Imprevisibility

/// `|a - b|`, computed without leaving `u64`.
pub open spec fn abs_diff(a: u64, b: u64) -> u64 {
    if b >= a {
        (b - a) as u64
    } else {
        (a - b) as u64
    }
}

/// The absolute differences of the adjacent pairs of `s`.
pub open spec fn adjacent_differences(s: Seq<u64>) -> Seq<u64> {
    if s.len() < 2 {
        Seq::empty()
    } else {
        Seq::new((s.len() - 1) as nat, |i: int| abs_diff(s[i], s[i + 1]))
    }
}

/// Distinct adjacent differences per seed; zero for an empty sequence.
pub open spec fn imprevisibility_score(s: Seq<u64>) -> Fraction {
    if s.len() == 0 {
        zero()
    } else {
        Fraction {
            num: distinct_count(adjacent_differences(s)) as u128,
            den: s.len() as u128,
        }
    }
}

pub open spec fn imprevisibility_result(s: Seq<u64>) -> TestResult {
    TestResult {
        kind: TestKind::Imprevisibility,
        passed: Fraction { num: 4, den: 5 }.lt(imprevisibility_score(s)),
        score: imprevisibility_score(s),
        details: if s.len() == 0 {
            Details::NoData
        } else {
            Details::Measured
        },
        thresholds: Some(Thresholds { low: Fraction { num: 4, den: 5 }, high: Fraction::whole(1) }),
    }
}

/// The absolute differences of adjacent seeds.
pub fn differences(seeds: &[u64]) -> (r: Vec<u64>)
    ensures
        r@ == adjacent_differences(seeds@),
{
    let n = seeds.len();
    let mut r: Vec<u64> = Vec::new();
    if n < 2 {
        assert(r@ =~= adjacent_differences(seeds@));
        return r;
    }
    let mut i: usize = 0;
    while i < n - 1
        invariant
            n == seeds@.len(),
            n >= 2,
            i <= n - 1,
            r@.len() == i,
            forall|k: int| 0 <= k < i ==> r@[k] == abs_diff(seeds@[k], seeds@[k + 1]),
        decreases n - 1 - i,
    {
        let a = seeds[i];
        let b = seeds[i + 1];
        let d = if b >= a {
            b - a
        } else {
            a - b
        };
        r.push(d);
        i = i + 1;
    }
    assert(r@ =~= adjacent_differences(seeds@));
    r
}

/// Imprevisibility test: passes when the number of distinct absolute
/// differences between adjacent seeds exceeds `0.8 N`.
pub fn test_imprevisibility(seeds: &[u64]) -> (r: TestResult)
    ensures
        r == imprevisibility_result(seeds@),
{
    let n = seeds.len();
    let (score, details) = if n == 0 {
        (Fraction::new(0, 1), Details::NoData)
    } else {
        let diffs = differences(seeds);
        let distinct = count_distinct(diffs.as_slice());
        (Fraction::new(distinct as u128, n as u128), Details::Measured)
    };
    let low = Fraction::new(4, 5);
    let passed = low.less_than(&score);
    TestResult {
        kind: TestKind::Imprevisibility,
        passed,
        score,
        details,
        thresholds: Some(Thresholds { low, high: Fraction::new(1, 1) }),
    }
}

} // verus!
