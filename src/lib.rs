//! A battery of statistical tests that judge whether a sequence of 64-bit
//! seeds looks random.
//!
//! Every score is an exact fraction of integers, and every verdict is decided
//! on that fraction.  The one statistic that is not rational, the binary
//! Shannon entropy, is handed out as the bit balance it is computed from.
//!
//! - `record`: fractions, result records and outcomes;
//! - `bits`, `bit_tests`: frequency, entropy, periodicity, correlation and
//!   sequence-length tests;
//! - `counting`: poker, block chi-square and pattern-bias tests;
//! - `distinct`: collision and imprevisibility tests;
//! - `windows`: the advanced periodicity test;
//! - `battery`: the test units, the two batteries and their runner;
//! - `generator`: seeds drawn from `rand`;
//! - `ingest`, `requests`: reading seeds from text and the two entry points;
//! - `laws`: properties of the units, proved.
pub mod record;
pub mod bits;
pub mod bit_tests;
pub mod counting;
pub mod distinct;
pub mod windows;
pub mod generator;
pub mod battery;
pub mod laws;
pub mod ingest;
pub mod requests;
