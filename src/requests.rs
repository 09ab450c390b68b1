//! The two entry points of the battery: seeds generated on request, and
//! seeds uploaded in a file.
use vstd::prelude::*;
use crate::record::{Outcome, TestKind, TestResult, Details, Fraction, invalid_configuration_result};
use crate::battery::{
    run_tests, analyze_rng_from_file, battery_outcomes, live_generation_battery,
    file_analysis_battery,
};
use crate::ingest::{
    parse_csv, parse_json, json_seeds_or_empty, segments, parsed_values, rejected_lines, texts,
};

verus! {

/// A record that a request carried no readable parameters.
pub open spec fn malformed_request_result() -> TestResult {
    TestResult {
        kind: TestKind::Configuration,
        passed: false,
        score: Fraction { num: 0, den: 1 },
        details: Details::MalformedRequest,
        thresholds: None,
    }
}

/// Runs the live-generation battery for a request that asked for
/// `num_seeds` seeds; `None` stands for a request whose parameters could not
/// be read.
pub fn run_tests_route(num_seeds: Option<usize>) -> (r: Vec<Outcome>)
    ensures
        num_seeds is None ==> r@ == seq![Outcome::Decided(malformed_request_result())],
        num_seeds == Some(0usize) ==> r@ == seq![
            Outcome::Decided(invalid_configuration_result(TestKind::Configuration)),
        ],
        (num_seeds matches Some(n) && n > 0) ==> exists|s: Seq<u64>|
            s.len() == num_seeds->0 && r@ == battery_outcomes(live_generation_battery(), s),
{
    match num_seeds {
        Some(n) => run_tests(n),
        None => {
            let r = vec![
                Outcome::Decided(
                    TestResult {
                        kind: TestKind::Configuration,
                        passed: false,
                        score: Fraction::new(0, 1),
                        details: Details::MalformedRequest,
                        thresholds: None,
                    },
                ),
            ];
            assert(r@ =~= seq![Outcome::Decided(malformed_request_result())]);
            r
        },
    }
}

/// The format of an uploaded file.
#[derive(Clone, Copy, Debug, PartialEq, Eq, Structural)]
pub enum UploadFormat {
    /// A JSON array of integers.
    Json,
    /// One decimal integer per line (plain text or CSV).
    Lines,
    /// Any other format.
    Unsupported,
}

/// What an upload gives: the battery's outcomes, and the lines that were set
/// aside while reading the seeds.
pub struct Upload {
    pub outcomes: Vec<Outcome>,
    pub rejected: Vec<Vec<char>>,
}

/// A record that an upload came in a format that is not read.
pub open spec fn unsupported_format_result() -> TestResult {
    TestResult {
        kind: TestKind::Analysis,
        passed: false,
        score: Fraction { num: 0, den: 1 },
        details: Details::UnsupportedFormat,
        thresholds: None,
    }
}

/// Reads the seeds of an uploaded file and runs the file-analysis battery on
/// them.
pub fn upload_file(format: UploadFormat, file_content: &str) -> (r: Upload)
    ensures
        format == UploadFormat::Json ==> r.outcomes@ == battery_outcomes(
            file_analysis_battery(),
            json_seeds_or_empty(file_content@),
        ) && r.rejected@.len() == 0,
        format == UploadFormat::Lines ==> r.outcomes@ == battery_outcomes(
            file_analysis_battery(),
            parsed_values(segments(file_content@)),
        ) && texts(r.rejected@) == rejected_lines(segments(file_content@)),
        format == UploadFormat::Unsupported ==> r.outcomes@ == seq![
            Outcome::Decided(unsupported_format_result()),
        ] && r.rejected@.len() == 0,
{
    match format {
        UploadFormat::Json => {
            let seeds = parse_json(file_content);
            Upload { outcomes: analyze_rng_from_file(seeds), rejected: Vec::new() }
        },
        UploadFormat::Lines => {
            let parsed = parse_csv(file_content);
            Upload { outcomes: analyze_rng_from_file(parsed.values), rejected: parsed.rejected }
        },
        UploadFormat::Unsupported => {
            let outcomes = vec![
                Outcome::Decided(
                    TestResult {
                        kind: TestKind::Analysis,
                        passed: false,
                        score: Fraction::new(0, 1),
                        details: Details::UnsupportedFormat,
                        thresholds: None,
                    },
                ),
            ];
            assert(outcomes@ =~= seq![Outcome::Decided(unsupported_format_result())]);
            Upload { outcomes, rejected: Vec::new() }
        },
    }
}

} // verus!
