//! The result record that every test unit produces, and exact fractions.
use vstd::prelude::*;

verus! {

/// A non-negative fraction `num / den`; well formed when `den > 0`.
#[derive(Clone, Copy, Debug, PartialEq, Eq, Structural)]
pub struct Fraction {
    pub num: u128,
    pub den: u128,
}

impl Fraction {
    pub open spec fn wf(self) -> bool {
        self.den > 0
    }

    /// `self <= other` as rational numbers.
    pub open spec fn le(self, other: Fraction) -> bool {
        self.num * other.den <= other.num * self.den
    }

    /// `self < other` as rational numbers.
    pub open spec fn lt(self, other: Fraction) -> bool {
        self.num * other.den < other.num * self.den
    }

    /// `self` and `other` stand for the same rational number.
    pub open spec fn same_value(self, other: Fraction) -> bool {
        self.num * other.den == other.num * self.den
    }

    /// The whole number `n`.
    pub open spec fn whole(n: int) -> Fraction {
        Fraction { num: n as u128, den: 1 }
    }

    /// Both cross products of `self` and `other` fit in a `u128`.
    pub open spec fn comparable(self, other: Fraction) -> bool {
        self.num * other.den <= u128::MAX && other.num * self.den <= u128::MAX
    }

    pub fn new(num: u128, den: u128) -> (r: Fraction)
        ensures
            r == (Fraction { num, den }),
    {
        Fraction { num, den }
    }

    /// Compares `self <= other` exactly.
    pub fn less_or_equal(&self, other: &Fraction) -> (r: bool)
        requires
            self.comparable(*other),
        ensures
            r == self.le(*other),
    {
        self.num * other.den <= other.num * self.den
    }

    /// Compares `self < other` exactly.
    pub fn less_than(&self, other: &Fraction) -> (r: bool)
        requires
            self.comparable(*other),
        ensures
            r == self.lt(*other),
    {
        self.num * other.den < other.num * self.den
    }
}

/// The zero fraction `0 / 1`.
pub open spec fn zero() -> Fraction {
    Fraction { num: 0, den: 1 }
}

/// `low <= score <= high`, bounds included.
pub open spec fn within(score: Fraction, low: Fraction, high: Fraction) -> bool {
    low.le(score) && score.le(high)
}

/// Decides `low <= score <= high` exactly.
pub fn in_range(score: Fraction, low: Fraction, high: Fraction) -> (r: bool)
    requires
        score.comparable(low),
        score.comparable(high),
    ensures
        r == within(score, low, high),
{
    low.less_or_equal(&score) && score.less_or_equal(&high)
}

/// Which statistical test a record reports on.
#[derive(Clone, Copy, Debug, PartialEq, Eq, Structural)]
pub enum TestKind {
    Frequency,
    Entropy,
    Poker,
    Periodicity,
    PeriodicityAdvanced,
    Correlation,
    SequenceLength,
    Blocks,
    Collision,
    Imprevisibility,
    PatternBias,
    /// A whole battery run that could not be dispatched.
    Analysis,
    /// A request whose parameters were invalid.
    Configuration,
}

/// What a record's explanation is built from, beyond its score and thresholds.
#[derive(Clone, Copy, Debug, PartialEq, Eq, Structural)]
pub enum Details {
    /// The score and the thresholds say it all.
    Measured,
    /// No seed was supplied.
    NoData,
    /// A parameter was outside the range the test accepts.
    InvalidConfiguration,
    /// Counts of the periodicity analysis on windows of three seeds.
    Windows { distinct: u64, max_repeats: u64 },
    /// Counts of the collision test.
    Collisions { total: u64, distinct: u64 },
    /// Number of low-nibble buckets that occur at least once.
    Buckets { used: u64 },
    /// A request whose parameters could not be read.
    MalformedRequest,
    /// An upload in a format that is not read.
    UnsupportedFormat,
}

/// The passing range `[low, high]` of a test.
#[derive(Clone, Copy, Debug, PartialEq, Eq, Structural)]
pub struct Thresholds {
    pub low: Fraction,
    pub high: Fraction,
}

/// The outcome of one statistical test on one seed sequence.  The test's
/// name and the explanation shown to users are rendered from `kind`,
/// `details`, the score and the thresholds by the front end.
#[derive(Clone, Copy, Debug, PartialEq, Eq, Structural)]
pub struct TestResult {
    pub kind: TestKind,
    pub passed: bool,
    pub score: Fraction,
    pub details: Details,
    pub thresholds: Option<Thresholds>,
}

impl TestResult {
    /// The score is a well-formed fraction, and so are the thresholds.
    pub open spec fn wf(self) -> bool {
        &&& self.score.wf()
        &&& match self.thresholds {
            Some(t) => t.low.wf() && t.high.wf(),
            None => true,
        }
    }

    /// The verdict is exactly "thresholds present and low <= score <= high".
    pub open spec fn verdict_matches_thresholds(self) -> bool {
        self.passed == match self.thresholds {
            Some(t) => within(self.score, t.low, t.high),
            None => false,
        }
    }
}

/// What a test unit hands back.  Every statistic but one is an exact fraction
/// and comes as a decided record.  The binary Shannon entropy of a sequence
/// whose bits are neither all clear nor all set is irrational: it comes as the
/// counts it is computed from, `ones` set bits out of `bits`, with
/// `0 < ones < bits`.
#[derive(Clone, Copy, Debug, PartialEq, Eq, Structural)]
pub enum Outcome {
    Decided(TestResult),
    Entropy { ones: u128, bits: u128 },
}

/// A record of a test on a sequence that held no seed.
pub open spec fn no_data_result(kind: TestKind) -> TestResult {
    TestResult {
        kind,
        passed: false,
        score: zero(),
        details: Details::NoData,
        thresholds: None,
    }
}

pub fn no_data(kind: TestKind) -> (r: TestResult)
    ensures
        r == no_data_result(kind),
{
    TestResult {
        kind,
        passed: false,
        score: Fraction { num: 0, den: 1 },
        details: Details::NoData,
        thresholds: None,
    }
}

/// A record of a request whose parameters were invalid.
pub open spec fn invalid_configuration_result(kind: TestKind) -> TestResult {
    TestResult {
        kind,
        passed: false,
        score: zero(),
        details: Details::InvalidConfiguration,
        thresholds: None,
    }
}

pub fn invalid_configuration(kind: TestKind) -> (r: TestResult)
    ensures
        r == invalid_configuration_result(kind),
{
    TestResult {
        kind,
        passed: false,
        score: Fraction { num: 0, den: 1 },
        details: Details::InvalidConfiguration,
        thresholds: None,
    }
}

/// The record of a test whose verdict is `low <= score <= high`.
pub open spec fn ranged_result(
    kind: TestKind,
    score: Fraction,
    low: Fraction,
    high: Fraction,
    details: Details,
) -> TestResult {
    TestResult {
        kind,
        passed: within(score, low, high),
        score,
        details,
        thresholds: Some(Thresholds { low, high }),
    }
}

pub fn ranged(kind: TestKind, score: Fraction, low: Fraction, high: Fraction, details: Details) -> (r:
    TestResult)
    requires
        score.comparable(low),
        score.comparable(high),
    ensures
        r == ranged_result(kind, score, low, high, details),
{
    let passed = in_range(score, low, high);
    TestResult { kind, passed, score, details, thresholds: Some(Thresholds { low, high }) }
}

} // verus!
