//! The advanced periodicity test: repeats of windows of three adjacent seeds.
use vstd::prelude::*;
use std::collections::HashMap;
use crate::counting::MAX_SEEDS;
use crate::record::{Fraction, TestKind, Details, TestResult, zero, ranged, ranged_result};

verus! {

broadcast use vstd::std_specs::hash::group_hash_axioms;

/// A window: three adjacent seeds.
pub type Window = (u64, u64, u64);

/// Number of windows of three adjacent seeds.
pub open spec fn window_count(s: Seq<u64>) -> nat {
    if s.len() >= 3 {
        (s.len() - 2) as nat
    } else {
        0
    }
}

/// The window that starts at index `i`.
pub open spec fn window(s: Seq<u64>, i: int) -> Window {
    (s[i], s[i + 1], s[i + 2])
}

/// Number of the first `n` windows of `s` that equal `w`.
pub open spec fn occurrences(s: Seq<u64>, w: Window, n: nat) -> nat
    decreases n,
{
    if n == 0 {
        0
    } else {
        occurrences(s, w, (n - 1) as nat) + if window(s, n - 1) == w {
            1nat
        } else {
            0nat
        }
    }
}

/// The largest number of times that one of the first `k` windows occurs in
/// the whole sequence.
pub open spec fn max_repeats_prefix(s: Seq<u64>, k: nat) -> nat
    decreases k,
{
    if k == 0 {
        0
    } else {
        let before = max_repeats_prefix(s, (k - 1) as nat);
        let here = occurrences(s, window(s, k - 1), window_count(s));
        if here > before {
            here
        } else {
            before
        }
    }
}

/// The largest number of times any window occurs; zero without windows.
pub open spec fn max_repeats(s: Seq<u64>) -> nat {
    max_repeats_prefix(s, window_count(s))
}

/// Number of the first `n` windows that occur for the first time.
pub open spec fn distinct_prefix(s: Seq<u64>, n: nat) -> nat
    decreases n,
{
    if n == 0 {
        0
    } else {
        distinct_prefix(s, (n - 1) as nat) + if occurrences(s, window(s, n - 1), (n - 1) as nat)
            == 0 {
            1nat
        } else {
            0nat
        }
    }
}

/// Number of distinct windows.
pub open spec fn distinct_windows(s: Seq<u64>) -> nat {
    distinct_prefix(s, window_count(s))
}

pub open spec fn periodicity_advanced_result(s: Seq<u64>) -> TestResult {
    ranged_result(
        TestKind::PeriodicityAdvanced,
        Fraction::whole(max_repeats(s) as int),
        zero(),
        Fraction::whole(2),
        Details::Windows {
            distinct: distinct_windows(s) as u64,
            max_repeats: max_repeats(s) as u64,
        },
    )
}

pub proof fn lemma_occurrence_bounds(s: Seq<u64>, w: Window, n: nat)
    ensures
        occurrences(s, w, n) <= n,
    decreases n,
{
    if n > 0 {
        lemma_occurrence_bounds(s, w, (n - 1) as nat);
    }
}

/// A window occurs among the windows up to and including itself.
pub proof fn lemma_occurs_in_itself(s: Seq<u64>, j: int, n: nat)
    requires
        0 <= j < n,
    ensures
        occurrences(s, window(s, j), n) >= 1,
    decreases n,
{
    if j < n - 1 {
        lemma_occurs_in_itself(s, j, (n - 1) as nat);
    }
}

pub proof fn lemma_prefix_counts_bounds(s: Seq<u64>, k: nat)
    ensures
        max_repeats_prefix(s, k) <= window_count(s),
        distinct_prefix(s, k) <= k,
    decreases k,
{
    if k > 0 {
        lemma_prefix_counts_bounds(s, (k - 1) as nat);
        lemma_occurrence_bounds(s, window(s, k - 1), window_count(s));
    }
}

/// Three codes below `2^32` packed into one 128-bit key.
pub open spec fn pack(a: u128, b: u128, c: u128) -> u128 {
    (a << 64u128) | (b << 32u128) | c
}

proof fn lemma_pack_injective(a1: u128, b1: u128, c1: u128, a2: u128, b2: u128, c2: u128)
    by (bit_vector)
    requires
        a1 < 0x1_0000_0000,
        b1 < 0x1_0000_0000,
        c1 < 0x1_0000_0000,
        a2 < 0x1_0000_0000,
        b2 < 0x1_0000_0000,
        c2 < 0x1_0000_0000,
        (a1 << 64u128) | (b1 << 32u128) | c1 == (a2 << 64u128) | (b2 << 32u128) | c2,
    ensures
        a1 == a2 && b1 == b2 && c1 == c2,
{
}

/// `codes` names each seed by a code below `2^32`; equal codes mean equal
/// seeds.
pub open spec fn codes_name(codes: Seq<u64>, s: Seq<u64>) -> bool {
    &&& codes.len() == s.len()
    &&& forall|i: int| 0 <= i < codes.len() ==> #[trigger] codes[i] < 0x1_0000_0000
    &&& forall|i: int, j: int|
        0 <= i < codes.len() && 0 <= j < codes.len() ==> ((#[trigger] codes[i] == #[trigger] codes[j])
            == (s[i] == s[j]))
}

/// The key of the window that starts at index `j`.
pub open spec fn key_at(codes: Seq<u64>, j: int) -> u128 {
    pack(codes[j] as u128, codes[j + 1] as u128, codes[j + 2] as u128)
}

proof fn lemma_key_iff_window(codes: Seq<u64>, s: Seq<u64>, i: int, j: int)
    requires
        codes_name(codes, s),
        0 <= i < window_count(s),
        0 <= j < window_count(s),
    ensures
        (key_at(codes, i) == key_at(codes, j)) == (window(s, i) == window(s, j)),
{
    assert(codes[i] < 0x1_0000_0000 && codes[i + 1] < 0x1_0000_0000 && codes[i + 2]
        < 0x1_0000_0000);
    assert(codes[j] < 0x1_0000_0000 && codes[j + 1] < 0x1_0000_0000 && codes[j + 2]
        < 0x1_0000_0000);
    assert((codes[i] == codes[j]) == (s[i] == s[j]));
    assert((codes[i + 1] == codes[j + 1]) == (s[i + 1] == s[j + 1]));
    assert((codes[i + 2] == codes[j + 2]) == (s[i + 2] == s[j + 2]));
    if key_at(codes, i) == key_at(codes, j) {
        lemma_pack_injective(
            codes[i] as u128,
            codes[i + 1] as u128,
            codes[i + 2] as u128,
            codes[j] as u128,
            codes[j + 1] as u128,
            codes[j + 2] as u128,
        );
    }
}

/// Names each seed by a dense code: the seeds get codes in the order in which
/// their values first occur.
fn dense_codes(seeds: &[u64]) -> (r: Vec<u64>)
    requires
        seeds@.len() <= MAX_SEEDS,
    ensures
        codes_name(r@, seeds@),
{
    let n = seeds.len();
    let mut ids: HashMap<u64, u64> = HashMap::new();
    let mut next: u64 = 0;
    let mut codes: Vec<u64> = Vec::new();
    let mut i: usize = 0;
    while i < n
        invariant
            n == seeds@.len(),
            n <= MAX_SEEDS,
            i <= n,
            next <= i,
            codes@.len() == i,
            forall|k: int|
                0 <= k < i ==> ids@.contains_key(#[trigger] seeds@[k]) && codes@[k]
                    == ids@[seeds@[k]],
            forall|a: u64| ids@.contains_key(a) ==> #[trigger] ids@[a] < next,
            forall|a: u64, b: u64|
                ids@.contains_key(a) && ids@.contains_key(b) && #[trigger] ids@[a]
                    == #[trigger] ids@[b] ==> a == b,
        decreases n - i,
    {
        let x = seeds[i];
        let code = match ids.get(&x) {
            Some(c) => *c,
            None => {
                let c = next;
                ids.insert(x, c);
                next = next + 1;
                c
            },
        };
        codes.push(code);
        i = i + 1;
    }
    assert forall|k: int| 0 <= k < codes@.len() implies #[trigger] codes@[k] < 0x1_0000_0000 by {
        assert(ids@.contains_key(seeds@[k]));
    }
    assert forall|k: int, l: int|
        0 <= k < codes@.len() && 0 <= l < codes@.len() implies ((#[trigger] codes@[k]
        == #[trigger] codes@[l]) == (seeds@[k] == seeds@[l])) by {
        assert(ids@.contains_key(seeds@[k]));
        assert(ids@.contains_key(seeds@[l]));
    }
    codes
}

/// The packed key of the window that starts at index `j`.
fn window_key(codes: &Vec<u64>, j: usize) -> (r: u128)
    requires
        j + 2 < codes@.len(),
        codes@.len() <= MAX_SEEDS,
    ensures
        r == key_at(codes@, j as int),
{
    ((codes[j] as u128) << 64u128) | ((codes[j + 1] as u128) << 32u128) | (codes[j + 2] as u128)
}

/// Advanced periodicity test: counts how often each window of three adjacent
/// seeds occurs; the score is the largest count, and the test passes when no
/// window occurs more than twice.  Fewer than three seeds give no window and
/// score zero.
pub fn test_periodicity_advanced(seeds: &[u64]) -> (r: TestResult)
    requires
        seeds@.len() <= MAX_SEEDS,
    ensures
        r == periodicity_advanced_result(seeds@),
{
    let ghost s = seeds@;
    let n = seeds.len();
    let nw: usize = if n >= 3 {
        n - 2
    } else {
        0
    };
    let codes = dense_codes(seeds);
    let mut counts: HashMap<u128, u64> = HashMap::new();
    let mut distinct: u64 = 0;
    let mut i: usize = 0;
    while i < nw
        invariant
            s == seeds@,
            n == s.len(),
            n <= MAX_SEEDS,
            nw == window_count(s),
            codes_name(codes@, s),
            i <= nw,
            distinct == distinct_prefix(s, i as nat),
            distinct <= i,
            forall|j: int|
                0 <= j < nw ==> (counts@.contains_key(#[trigger] key_at(codes@, j)) == (
                occurrences(s, window(s, j), i as nat) > 0)),
            forall|j: int|
                0 <= j < nw && counts@.contains_key(#[trigger] key_at(codes@, j))
                    ==> counts@[key_at(codes@, j)] == occurrences(s, window(s, j), i as nat),
        decreases nw - i,
    {
        let k = window_key(&codes, i);
        proof {
            lemma_occurrence_bounds(s, window(s, i as int), i as nat);
        }
        let ghost old_counts = counts@;
        match counts.get(&k) {
            Some(c) => {
                let c = *c;
                counts.insert(k, c + 1);
            },
            None => {
                counts.insert(k, 1);
                distinct = distinct + 1;
            },
        }
        proof {
            assert forall|j: int| 0 <= j < nw implies (counts@.contains_key(
                #[trigger] key_at(codes@, j),
            ) == (occurrences(s, window(s, j), (i + 1) as nat) > 0)) && (counts@.contains_key(
                key_at(codes@, j),
            ) ==> counts@[key_at(codes@, j)] == occurrences(s, window(s, j), (i + 1) as nat)) by {
                lemma_key_iff_window(codes@, s, i as int, j);
            }
        }
        i = i + 1;
    }
    let mut best: u64 = 0;
    let mut j: usize = 0;
    while j < nw
        invariant
            s == seeds@,
            n == s.len(),
            n <= MAX_SEEDS,
            nw == window_count(s),
            codes_name(codes@, s),
            j <= nw,
            best == max_repeats_prefix(s, j as nat),
            forall|l: int|
                0 <= l < nw ==> (counts@.contains_key(#[trigger] key_at(codes@, l)) == (
                occurrences(s, window(s, l), nw as nat) > 0)),
            forall|l: int|
                0 <= l < nw && counts@.contains_key(#[trigger] key_at(codes@, l))
                    ==> counts@[key_at(codes@, l)] == occurrences(s, window(s, l), nw as nat),
        decreases nw - j,
    {
        proof {
            lemma_occurs_in_itself(s, j as int, nw as nat);
            lemma_prefix_counts_bounds(s, j as nat);
        }
        let k = window_key(&codes, j);
        let here = match counts.get(&k) {
            Some(c) => *c,
            None => 0,
        };
        if here > best {
            best = here;
        }
        j = j + 1;
    }
    proof {
        lemma_prefix_counts_bounds(s, nw as nat);
    }
    ranged(
        TestKind::PeriodicityAdvanced,
        Fraction::new(best as u128, 1),
        Fraction::new(0, 1),
        Fraction::new(2, 1),
        Details::Windows { distinct, max_repeats: best },
    )
}

} // verus!
