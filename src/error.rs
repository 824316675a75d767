//! The failures that the readers of this crate report.
use vstd::prelude::*;

verus! {

/// Why a reading could not be turned into a record.
#[derive(Clone, Debug, PartialEq, Eq)]
pub enum Error {
    /// A file was missing or could not be read.
    IoFailure { path: String, message: String },
    /// Text did not hold a value of the expected kind. `path` names the file,
    /// or the descriptor key, that held `contents`.
    ParseFailure { path: String, contents: String },
    /// A descriptor block lacks a required key.
    MissingField { key: String },
}

} // verus!
