//! Error types.
//!
//! Fallible operations return `Result<T, GuardianError>` rather than silently
//! dropping errors or panicking.
use vstd::prelude::*;

use crate::text::push_str;

verus! {

/// A file system path.
#[verifier::external_type_specification]
#[verifier::external_body]
pub struct ExPathBuf(std::path::PathBuf);

/// An input/output error.
#[verifier::external_type_specification]
#[verifier::external_body]
pub struct ExIoError(std::io::Error);

/// A JSON encoding or decoding error.
#[verifier::external_type_specification]
#[verifier::external_body]
pub struct ExJsonError(serde_json::Error);

/// The error type of all guardian operations.
#[allow(inconsistent_fields)]
#[derive(Debug)]
pub enum GuardianError {
    /// An I/O error occurred during persistence (save/load).
    Io { path: std::path::PathBuf, source: std::io::Error },
    /// JSON serialization or deserialization failed.
    Json { context: String, source: serde_json::Error },
    /// An operation needed data that the profiler did not have.
    NoData { operation: String },
    /// Invalid parameters were passed to a builder or configuration method.
    InvalidConfig { message: String },
    /// A comparison could not be performed.
    ComparisonFailed { reason: String },
}

/// The text of a path (`Path::display`), with bytes that are not UTF-8
/// replaced. Nothing is claimed of the text: what a path holds is not visible
/// here.
#[verifier::external_body]
fn path_display_text(path: &std::path::PathBuf) -> String {
    format!("{}", path.display())
}

/// The message of an I/O error (its `Display` form). Nothing is claimed of
/// the text: it depends on the operating system's error messages.
#[verifier::external_body]
fn io_error_text(e: &std::io::Error) -> String {
    format!("{}", e)
}

/// The message of a JSON error (its `Display` form). Nothing is claimed of
/// the text: the error's contents are not visible here.
#[verifier::external_body]
fn json_error_text(e: &serde_json::Error) -> String {
    format!("{}", e)
}

impl GuardianError {
    /// The human-readable message of the error.
    pub fn message(&self) -> (s: String)
        ensures
            match self {
                GuardianError::Io { .. } => exists|p: Seq<char>, e: Seq<char>|
                    s@ == "I/O error on "@ + p + ": "@ + e,
                GuardianError::Json { context, .. } => exists|e: Seq<char>|
                    s@ == "JSON error ("@ + context@ + "): "@ + e,
                GuardianError::NoData { operation } => s@ == "no data available for "@ + operation@,
                GuardianError::InvalidConfig { message } => s@ == "invalid configuration: "@
                    + message@,
                GuardianError::ComparisonFailed { reason } => s@ == "comparison failed: "@ + reason@,
            },
    {
        let mut s = String::new();
        match self {
            GuardianError::Io { path, source } => {
                push_str(&mut s, "I/O error on ");
                let p = path_display_text(path);
                push_str(&mut s, p.as_str());
                push_str(&mut s, ": ");
                let e = io_error_text(source);
                push_str(&mut s, e.as_str());
                assert(s@ =~= "I/O error on "@ + p@ + ": "@ + e@);
            },
            GuardianError::Json { context, source } => {
                push_str(&mut s, "JSON error (");
                push_str(&mut s, context.as_str());
                push_str(&mut s, "): ");
                let e = json_error_text(source);
                push_str(&mut s, e.as_str());
                assert(s@ =~= "JSON error ("@ + context@ + "): "@ + e@);
            },
            GuardianError::NoData { operation } => {
                push_str(&mut s, "no data available for ");
                push_str(&mut s, operation.as_str());
                assert(s@ =~= "no data available for "@ + operation@);
            },
            GuardianError::InvalidConfig { message } => {
                push_str(&mut s, "invalid configuration: ");
                push_str(&mut s, message.as_str());
                assert(s@ =~= "invalid configuration: "@ + message@);
            },
            GuardianError::ComparisonFailed { reason } => {
                push_str(&mut s, "comparison failed: ");
                push_str(&mut s, reason.as_str());
                assert(s@ =~= "comparison failed: "@ + reason@);
            },
        }
        s
    }
}

} // verus!
