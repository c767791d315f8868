//! Reads the number of pages from the report of the page inspector.
//!
//! The report is text with one field to a line. The field `Pages:` is followed
//! by the number of pages in decimal notation.

use vstd::prelude::*;
use crate::decimal::{parse_usize, parsed_usize};
use crate::error::PipelineError;
use crate::pattern::{pattern_capture, regex_capture};

verus! {

/// The pattern that finds the page count in the report. Its first group
/// captures the digits.
pub const PAGE_COUNT_PATTERN: &'static str = "Pages:\\s*(\\d+)";

/// The page count that the captured digits give: a parse error if nothing
/// was captured or if what was captured is no number that a `usize` holds.
pub open spec fn page_count_of_digits(digits: Option<Seq<char>>) -> Result<usize, PipelineError> {
    match digits {
        Some(digits) => match parsed_usize(digits) {
            Some(count) => Ok(count),
            None => Err(PipelineError::Parse),
        },
        None => Err(PipelineError::Parse),
    }
}

/// The page count that the search for the pattern gives.
pub open spec fn page_count_of_capture(capture: Option<Option<Seq<char>>>) -> Result<
    usize,
    PipelineError,
> {
    match capture {
        Some(digits) => page_count_of_digits(digits),
        None => Err(PipelineError::Pattern),
    }
}

/// The page count that `report` states.
pub open spec fn reported_page_count(report: Seq<char>) -> Result<usize, PipelineError> {
    page_count_of_capture(pattern_capture(PAGE_COUNT_PATTERN@, 1, report))
}

/// The page count that the digits captured from the report give, where
/// `digits` is nothing if the report holds no page count.
pub fn page_count_from_digits(digits: Option<&str>) -> (count: Result<usize, PipelineError>)
    ensures
        count == page_count_of_digits(
            match digits {
                Some(d) => Some(d@),
                None => None,
            },
        ),
{
    match digits {
        Some(d) => match parse_usize(d) {
            Some(count) => Ok(count),
            None => Err(PipelineError::Parse),
        },
        None => Err(PipelineError::Parse),
    }
}

/// Reads the page count from the inspector's report.
///
/// Fails with a parse error if the report holds no page count or the digits
/// found stand for no number that a `usize` holds, and with a pattern error if
/// the engine refuses the pattern.
pub fn parse_page_count(report: &str) -> (count: Result<usize, PipelineError>)
    ensures
        count == reported_page_count(report@),
{
    match regex_capture(PAGE_COUNT_PATTERN, 1, report) {
        Ok(Some(digits)) => page_count_from_digits(Some(digits.as_str())),
        Ok(None) => page_count_from_digits(None),
        Err(_) => Err(PipelineError::Pattern),
    }
}

} // verus!
