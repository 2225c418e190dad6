//! Error taxonomy for the request gate and the user-management use cases.
//!
//! Every rejection this library produces is one of these variants; none is fatal
//! to the process. The carried string is the human-readable message that the
//! HTTP layer places in the response body.

use vstd::prelude::*;

verus! {

/// Application-level error, terminal for the current request.
#[derive(Debug, Clone)]
pub enum AppError {
    /// Input failed a validation rule.
    ValidationError(String),
    /// Input clashes with existing state (e.g. a reserved username).
    Conflict(String),
    /// The request is well-formed but cannot be honoured.
    BadRequest(String),
    /// Credential missing, invalid, or mismatched.
    Unauthorized(String),
    /// The addressed entity does not exist.
    NotFound(String),
    /// An internal collaborator failed.
    InternalError(String),
}

impl AppError {
    /// The message carried by the error, whichever variant it is.
    pub open spec fn spec_message(&self) -> Seq<char> {
        match self {
            AppError::ValidationError(m) => m@,
            AppError::Conflict(m) => m@,
            AppError::BadRequest(m) => m@,
            AppError::Unauthorized(m) => m@,
            AppError::NotFound(m) => m@,
            AppError::InternalError(m) => m@,
        }
    }

    /// Returns the message carried by the error.
    pub fn message(&self) -> (r: &String)
        ensures
            r@ == self.spec_message(),
    {
        match self {
            AppError::ValidationError(m) => m,
            AppError::Conflict(m) => m,
            AppError::BadRequest(m) => m,
            AppError::Unauthorized(m) => m,
            AppError::NotFound(m) => m,
            AppError::InternalError(m) => m,
        }
    }
}

} // verus!
