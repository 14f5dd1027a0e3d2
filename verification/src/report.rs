//! Kinds of failure and the diagnostics printed for them.

use vstd::prelude::*;
use vstd::string::StringExecFns;
use crate::timestamp::TimeError;

verus! {

/// The kinds of input and output failure that are told apart.
#[derive(Clone, Copy, Debug, PartialEq, Eq, Structural)]
pub enum IoErrorKind {
    /// The path names nothing.
    NotFound,
    /// Access to the path was refused.
    PermissionDenied,
    /// The file system cannot do what was asked.
    Unsupported,
    /// Any other failure.
    Other,
}

/// A failed operation: its kind and the system's own description of it.
#[derive(Clone, Debug, PartialEq, Eq)]
pub struct IoFailure {
    pub kind: IoErrorKind,
    pub detail: String,
}

/// The diagnostic for a file that could not be opened for reading.
pub open spec fn open_error_text(kind: IoErrorKind, path: Seq<char>) -> Seq<char> {
    match kind {
        IoErrorKind::NotFound => "File not found: "@ + path,
        IoErrorKind::PermissionDenied => "Permission denied: "@ + path,
        _ => "Error opening file: "@ + path,
    }
}

/// What follows the heading in the diagnostic for a reference file: a fixed
/// phrase for the three kinds that are told apart, else the system's
/// description.
pub open spec fn reference_cause(kind: IoErrorKind, detail: Seq<char>) -> Seq<char> {
    match kind {
        IoErrorKind::NotFound => "File not found"@,
        IoErrorKind::PermissionDenied => "Permission denied"@,
        IoErrorKind::Unsupported => "Unsupported operation"@,
        IoErrorKind::Other => detail,
    }
}

/// What follows the heading in the diagnostic for a file that could not be
/// updated. A missing file has no phrase of its own here.
pub open spec fn update_cause(kind: IoErrorKind, detail: Seq<char>) -> Seq<char> {
    match kind {
        IoErrorKind::PermissionDenied => "Permission denied"@,
        IoErrorKind::Unsupported => "Unsupported operation"@,
        _ => detail,
    }
}

/// The diagnostic for a reference file whose times could not be read.
pub open spec fn reference_error_text(kind: IoErrorKind, detail: Seq<char>) -> Seq<char> {
    "Error parsing reference file: "@ + reference_cause(kind, detail)
}

/// The diagnostic for a file whose times could not be updated.
pub open spec fn update_error_text(kind: IoErrorKind, detail: Seq<char>) -> Seq<char> {
    "Error updating file: "@ + update_cause(kind, detail)
}

/// The diagnostic for a missing file that could not be created.
pub open spec fn create_error_text(detail: Seq<char>) -> Seq<char> {
    "Error creating file: "@ + detail
}

/// The description of a timestamp error.
pub open spec fn time_error_cause(error: TimeError) -> Seq<char> {
    match error {
        TimeError::UnsupportedFormat => "Unsupported date format"@,
    }
}

/// The diagnostic for a timestamp that could not be read.
pub open spec fn time_error_text(error: TimeError) -> Seq<char> {
    "Error parsing time: "@ + time_error_cause(error)
}

/// The diagnostic for a file that could not be opened for reading. It names
/// the path.
pub fn open_error_message(kind: IoErrorKind, path: &str) -> (message: String)
    ensures
        message@ == open_error_text(kind, path@),
{
    let heading = match kind {
        IoErrorKind::NotFound => "File not found: ",
        IoErrorKind::PermissionDenied => "Permission denied: ",
        _ => "Error opening file: ",
    };
    String::from_str(heading).concat(path)
}

/// The diagnostic for a reference file whose times could not be read.
pub fn reference_error_message(failure: &IoFailure) -> (message: String)
    ensures
        message@ == reference_error_text(failure.kind, failure.detail@),
{
    let cause = match failure.kind {
        IoErrorKind::NotFound => "File not found",
        IoErrorKind::PermissionDenied => "Permission denied",
        IoErrorKind::Unsupported => "Unsupported operation",
        IoErrorKind::Other => failure.detail.as_str(),
    };
    String::from_str("Error parsing reference file: ").concat(cause)
}

/// The diagnostic for a file whose times could not be updated.
pub fn update_error_message(failure: &IoFailure) -> (message: String)
    ensures
        message@ == update_error_text(failure.kind, failure.detail@),
{
    let cause = match failure.kind {
        IoErrorKind::PermissionDenied => "Permission denied",
        IoErrorKind::Unsupported => "Unsupported operation",
        _ => failure.detail.as_str(),
    };
    String::from_str("Error updating file: ").concat(cause)
}

/// The diagnostic for a missing file that could not be created.
pub fn create_error_message(failure: &IoFailure) -> (message: String)
    ensures
        message@ == create_error_text(failure.detail@),
{
    String::from_str("Error creating file: ").concat(failure.detail.as_str())
}

/// The diagnostic for a timestamp that could not be read.
pub fn time_error_message(error: TimeError) -> (message: String)
    ensures
        message@ == time_error_text(error),
{
    let cause = match error {
        TimeError::UnsupportedFormat => "Unsupported date format",
    };
    String::from_str("Error parsing time: ").concat(cause)
}

} // verus!
