//! Errors that a write can surface to its caller.

use vstd::prelude::*;
use vstd::string::*;

verus! {

/// Why a batch was not written.
#[derive(Debug, Clone, PartialEq, Eq)]
pub enum Error {
    /// An asserted value was not what the batch expected: somebody else wrote
    /// first.  Never retried.
    AssertValueFailed,
    /// The batch broke an invariant of the engine.  Never retried.
    InternalError(String),
    /// The backend failed in a way that the engine does not recover from.
    Backend(String),
}

/// Mathematical image of an [`Error`].
pub enum ErrorView {
    AssertValueFailed,
    InternalError(Seq<char>),
    Backend(Seq<char>),
}

impl View for Error {
    type V = ErrorView;

    open spec fn view(&self) -> ErrorView {
        match self {
            Error::AssertValueFailed => ErrorView::AssertValueFailed,
            Error::InternalError(message) => ErrorView::InternalError(message@),
            Error::Backend(message) => ErrorView::Backend(message@),
        }
    }
}

/// A value needs more records than one key can be extended to.
pub open spec fn value_too_large() -> ErrorView {
    ErrorView::InternalError("Value too large"@)
}

/// A payload refers to an identifier that the batch has not assigned yet.
pub open spec fn unassigned_id() -> ErrorView {
    ErrorView::InternalError("No assigned id at this position"@)
}

/// A stored counter is not eight bytes long.
pub open spec fn invalid_counter() -> ErrorView {
    ErrorView::InternalError("Failed to deserialize i64 value: invalid length"@)
}

/// Every document identifier of the collection is taken.
pub open spec fn ids_exhausted() -> ErrorView {
    ErrorView::InternalError("No document ids available"@)
}

/// The backend answered something else than what was asked.
pub open spec fn unexpected_reply() -> ErrorView {
    ErrorView::InternalError("Unexpected reply from the backend"@)
}

impl Error {
    /// An internal error with the given message.
    pub fn internal(message: &str) -> (e: Error)
        ensures
            e@ == ErrorView::InternalError(message@),
    {
        Error::InternalError(message.to_owned())
    }

    /// The text of the error, for reports.
    pub fn message(&self) -> (text: String)
        ensures
            text@ == match self@ {
                ErrorView::AssertValueFailed => "Assert value failed"@,
                ErrorView::InternalError(message) => message,
                ErrorView::Backend(message) => message,
            },
    {
        match self {
            Error::AssertValueFailed => "Assert value failed".to_owned(),
            Error::InternalError(message) => message.clone(),
            Error::Backend(message) => message.clone(),
        }
    }
}

} // verus!
