//! Errors reported by the tabular store and its format adapters.

use vstd::prelude::*;

verus! {

/// The ways an operation on a spreadsheet can fail.
#[derive(Debug)]
pub enum SheetError {
    /// No format adapter is registered for the declared kind of a file.
    UnsupportedFormat,
    /// The underlying storage rejected a read or a write; the text says why.
    Storage(String),
    /// A caller-supplied row range is empty after clamping.
    Validation,
}

impl SheetError {
    /// A human-readable description of the error.
    pub fn message(&self) -> (r: String) {
        match self {
            SheetError::UnsupportedFormat => "Unknown file extension.".to_owned(),
            SheetError::Storage(text) => text.clone(),
            SheetError::Validation => "Starting row must be less than or equal to the ending row".to_owned(),
        }
    }
}

} // verus!
