//! The errors that processing reports.

use vstd::prelude::*;

verus! {

/// Why a request was not processed.
#[derive(Debug, Clone, PartialEq, Eq)]
pub enum ProcessError {
    /// The data is not an array where an array is required.
    InputShape,
    /// The method is none of the four that the processor knows.
    UnknownMethod(String),
    /// The reduction is none of `sum`, `avg`, `max`, `min`.
    UnknownOperation(String),
    /// A pipeline stage is none of `validate`, `transform`, `enrich`, `aggregate`.
    UnknownStage(String),
    /// No admission permit could be had; the text is the limiter's own.
    Admission(String),
}

impl ProcessError {
    /// The text that a caller is shown for this error.
    pub open spec fn text(self) -> Seq<char> {
        match self {
            ProcessError::InputShape => "Input must be an array"@,
            ProcessError::UnknownMethod(name) => "Unknown concurrent method: "@ + name@,
            ProcessError::UnknownOperation(name) => "Unknown operation: "@ + name@,
            ProcessError::UnknownStage(name) => "Unknown pipeline stage: "@ + name@,
            ProcessError::Admission(reason) => reason@,
        }
    }

    /// The text of the error, as a caller is shown it.
    pub fn message(&self) -> (message: String)
        ensures
            message@ == self.text(),
    {
        match self {
            ProcessError::InputShape => String::from_str("Input must be an array"),
            ProcessError::UnknownMethod(name) => String::from_str(
                "Unknown concurrent method: ",
            ).concat(name.as_str()),
            ProcessError::UnknownOperation(name) => String::from_str("Unknown operation: ").concat(
                name.as_str(),
            ),
            ProcessError::UnknownStage(name) => String::from_str(
                "Unknown pipeline stage: ",
            ).concat(name.as_str()),
            ProcessError::Admission(reason) => reason.clone(),
        }
    }
}

} // verus!
