//! What can go wrong, as typed results.
use vstd::prelude::*;
use vstd::string::StringExecFns;

verus! {

/// Mathematical model of a [`DocError`].
pub enum Fault {
    EmptyInput,
    SyntaxError { detail: Seq<char> },
    CacheLockFailure,
    ProjectionFailure { detail: Seq<char> },
}

/// Why a document could not be opened or saved.
#[derive(Debug)]
pub enum DocError {
    /// The text holds no value: it is empty, or only whitespace and comments.
    EmptyInput,
    /// The text is malformed; `detail` is the parser's complaint.
    SyntaxError { detail: String },
    /// The shared cache could not be locked.
    CacheLockFailure,
    /// The new value could not be written onto the document.
    ProjectionFailure { detail: String },
}

impl View for DocError {
    type V = Fault;

    open spec fn view(&self) -> Fault {
        match self {
            DocError::EmptyInput => Fault::EmptyInput,
            DocError::SyntaxError { detail } => Fault::SyntaxError { detail: detail@ },
            DocError::CacheLockFailure => Fault::CacheLockFailure,
            DocError::ProjectionFailure { detail } => Fault::ProjectionFailure { detail: detail@ },
        }
    }
}

impl Fault {
    /// The message shown for a fault.
    pub open spec fn message(self) -> Seq<char> {
        match self {
            Fault::EmptyInput => "Empty input"@,
            Fault::SyntaxError { detail } => "Parse error: "@ + detail,
            Fault::CacheLockFailure => "Failed to lock comment cache"@,
            Fault::ProjectionFailure { detail } => "Failed to stringify: "@ + detail,
        }
    }
}

impl DocError {
    /// The message shown for this error.
    pub fn message(&self) -> (text: String)
        ensures
            text@ == self@.message(),
    {
        match self {
            DocError::EmptyInput => String::from_str("Empty input"),
            DocError::SyntaxError { detail } => String::from_str("Parse error: ").concat(detail.as_str()),
            DocError::CacheLockFailure => String::from_str("Failed to lock comment cache"),
            DocError::ProjectionFailure { detail } => String::from_str("Failed to stringify: ").concat(
                detail.as_str(),
            ),
        }
    }
}

} // verus!
