//! The failures that end the work on a case.
//!
//! What a tool complains of, and a file that is missing where one was
//! expected, end nothing: they are recorded as diagnostics of the case.

use vstd::prelude::*;

verus! {

/// A field that every case record must hold.
#[derive(Clone, Copy, Debug, PartialEq, Eq, Structural)]
pub enum RequiredField {
    /// The case number.
    CaseNumber,
    /// The location of the document.
    SourceUrl,
    /// The day of the decision.
    DecisionDate,
}

/// Why the work on a case ended without a text.
#[derive(Clone, Copy, Debug, PartialEq, Eq, Structural)]
pub enum PipelineError {
    /// The case record lacks a required field.
    Schema(RequiredField),
    /// The document could not be fetched.
    Network,
    /// No page count could be read from the inspector's report.
    Parse,
    /// The regular-expression engine refused one of the pipeline's patterns.
    Pattern,
}

} // verus!
