//! The closed set of failures that every service reports.

use vstd::prelude::*;

verus! {

/// What went wrong, with a detail string for people.
#[derive(Debug)]
pub enum ServiceError {
    /// A record that the operation refers to does not exist.
    ReferenceNotFound(String),
    /// A business rule forbids the operation.
    ConstraintViolation(String),
    /// The store failed; the detail is its own message.
    StorageFailure(String),
    /// Stored records contradict each other (a dangling reference met while
    /// joining or grouping).
    DataIntegrityError(String),
}

impl ServiceError {
    /// The HTTP status a presentation layer shows for this error: client
    /// errors for the first two kinds, an opaque server error for the others.
    pub fn status_code(&self) -> (r: u16)
        ensures
            r == match self {
                ServiceError::ReferenceNotFound(_) => 422u16,
                ServiceError::ConstraintViolation(_) => 400u16,
                ServiceError::StorageFailure(_) => 500u16,
                ServiceError::DataIntegrityError(_) => 500u16,
            },
    {
        match self {
            ServiceError::ReferenceNotFound(_) => 422,
            ServiceError::ConstraintViolation(_) => 400,
            ServiceError::StorageFailure(_) => 500,
            ServiceError::DataIntegrityError(_) => 500,
        }
    }

    /// The detail string attached to the error.
    pub fn detail(&self) -> (r: &String)
        ensures
            r == match self {
                ServiceError::ReferenceNotFound(d) => d,
                ServiceError::ConstraintViolation(d) => d,
                ServiceError::StorageFailure(d) => d,
                ServiceError::DataIntegrityError(d) => d,
            },
    {
        match self {
            ServiceError::ReferenceNotFound(d) => d,
            ServiceError::ConstraintViolation(d) => d,
            ServiceError::StorageFailure(d) => d,
            ServiceError::DataIntegrityError(d) => d,
        }
    }
}

/// Lifts the outcome of a store call: a store error, given by its message,
/// becomes `StorageFailure` with that message; a value passes through.
pub fn from_store<T>(r: Result<T, String>) -> (out: Result<T, ServiceError>)
    ensures
        match r {
            Ok(v) => out == Ok::<T, ServiceError>(v),
            Err(e) => out == Err::<T, ServiceError>(ServiceError::StorageFailure(e)),
        },
{
    match r {
        Ok(v) => Ok(v),
        Err(e) => Err(ServiceError::StorageFailure(e)),
    }
}

} // verus!
