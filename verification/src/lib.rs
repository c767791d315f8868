//! Turns per-case judicial PDF documents into normalized plain text.
//!
//! A batch of cases is given as records with a case number, the day of the
//! decision and the location of a PDF. For each case the document is fetched,
//! its text is got out of it, either from its text layer or by recognizing
//! the rasterized pages, and the text is reassembled into paragraphs.
//!
//! This crate holds the decisions of that pipeline and leaves the outside work
//! (the network, the external tools, the file system) to its caller:
//!
//! - [`cache`] decides whether a fetch and an extraction are needed at all;
//! - [`record`] holds the case records and their required fields;
//! - [`layout`] names the files of a case;
//! - [`tools`] says how the external tools are invoked and what their
//!   outcome means;
//! - [`pagecount`] reads the page count from the page inspector's report;
//! - [`filter`] drops boilerplate lines from text-layer output;
//! - [`join`] reassembles recognized text into paragraphs;
//! - [`processor`] is the state machine that leads a case from its record to
//!   its text, and [`trace`] states what holds of every run of it.
//!
//! [`text`], [`lines`] and [`decimal`] are the groundwork: whitespace and
//! trimming, splitting into lines, and numbers in decimal notation.
//! [`pattern`] is the boundary to the regular-expression engine, and
//! [`error`] lists the failures that end the work on a case.

pub mod cache;
pub mod decimal;
pub mod error;
pub mod filter;
pub mod join;
pub mod layout;
pub mod lines;
pub mod pagecount;
pub mod pattern;
pub mod processor;
pub mod record;
pub mod text;
pub mod tools;
pub mod trace;
