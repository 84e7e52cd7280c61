//! The ways in which reading the two inputs can fail.

use vstd::prelude::*;

verus! {

/// Which of the two inputs is meant.
#[derive(Debug, Clone, Copy, PartialEq, Eq, Structural)]
pub enum InputBlob {
    Followers,
    Following,
}

/// Why an input could not be turned into entries.
#[derive(Debug, Clone, PartialEq, Eq)]
pub enum AnalysisError {
    /// The content of the input could not be obtained.
    InputUnreadable { blob: InputBlob },
    /// The content is not JSON; `detail` is the reader's description.
    MalformedInput { blob: InputBlob, detail: String },
    /// The content is JSON, but not of the shape of a collection.
    UnexpectedShape { blob: InputBlob },
}

/// Model of an `AnalysisError`.
pub enum Failure {
    InputUnreadable { blob: InputBlob },
    MalformedInput { blob: InputBlob, detail: Seq<char> },
    UnexpectedShape { blob: InputBlob },
}

impl DeepView for AnalysisError {
    type V = Failure;

    open spec fn deep_view(&self) -> Failure {
        match self {
            AnalysisError::InputUnreadable { blob } => Failure::InputUnreadable { blob: *blob },
            AnalysisError::MalformedInput { blob, detail } => Failure::MalformedInput {
                blob: *blob,
                detail: detail@,
            },
            AnalysisError::UnexpectedShape { blob } => Failure::UnexpectedShape { blob: *blob },
        }
    }
}

impl Failure {
    /// The input that the failure is about.
    pub open spec fn blob(self) -> InputBlob {
        match self {
            Failure::InputUnreadable { blob } => blob,
            Failure::MalformedInput { blob, .. } => blob,
            Failure::UnexpectedShape { blob } => blob,
        }
    }
}

impl AnalysisError {
    /// The input that the error is about.
    pub fn blob(&self) -> (blob: InputBlob)
        ensures
            blob == self.deep_view().blob(),
    {
        match self {
            AnalysisError::InputUnreadable { blob } => *blob,
            AnalysisError::MalformedInput { blob, .. } => *blob,
            AnalysisError::UnexpectedShape { blob } => *blob,
        }
    }
}

} // verus!
