//! The application error that every host adapter maps to its transport.

use vstd::prelude::*;

verus! {

/// Sanitized failure of an application request.
#[derive(Debug, PartialEq, Eq)]
pub enum ApplicationError {
    /// The request is malformed or exceeds a limit; the text says why.
    InvalidRequest(String),
    /// The addressed item does not exist.
    NotFound,
    /// An unexpected internal failure.
    Internal,
    /// The operation was cancelled.
    OperationCancelled,
    /// The caller lacks permission.
    PermissionDenied,
    /// A platform operation failed; the text says why.
    PlatformOperationFailed(String),
    /// The provider behind the request is unavailable.
    ProviderUnavailable,
    /// A platform action is unavailable.
    ActionUnavailable(String),
    /// The source changed since it was opened.
    FileRevisionConflict {
        /// Revision recorded when the source was opened.
        expected_revision: String,
        /// Revision found now.
        actual_revision: String,
    },
}

impl Clone for ApplicationError {
    fn clone(&self) -> (r: Self)
        ensures
            r == *self,
    {
        match self {
            ApplicationError::InvalidRequest(m) => ApplicationError::InvalidRequest(m.clone()),
            ApplicationError::NotFound => ApplicationError::NotFound,
            ApplicationError::Internal => ApplicationError::Internal,
            ApplicationError::OperationCancelled => ApplicationError::OperationCancelled,
            ApplicationError::PermissionDenied => ApplicationError::PermissionDenied,
            ApplicationError::PlatformOperationFailed(m) => ApplicationError::PlatformOperationFailed(
                m.clone(),
            ),
            ApplicationError::ProviderUnavailable => ApplicationError::ProviderUnavailable,
            ApplicationError::ActionUnavailable(m) => ApplicationError::ActionUnavailable(m.clone()),
            ApplicationError::FileRevisionConflict { expected_revision, actual_revision } =>
                ApplicationError::FileRevisionConflict {
                expected_revision: expected_revision.clone(),
                actual_revision: actual_revision.clone(),
            },
        }
    }
}

/// An invalid request whose text is `message`.
pub open spec fn is_invalid_request(e: ApplicationError, message: Seq<char>) -> bool {
    e matches ApplicationError::InvalidRequest(m) && m@ == message
}

} // verus!
