//! The error answered to API clients: a status class and a message.

use vstd::prelude::*;

verus! {

/// An error carrying the HTTP status class it maps to and its message.
#[derive(Debug)]
pub enum AppError {
    BadRequest(String),
    Unauthorized(String),
    NotFound(String),
    Internal(String),
}

/// The message of an error, whatever its class.
pub open spec fn error_message(e: AppError) -> Seq<char> {
    match e {
        AppError::BadRequest(m) => m@,
        AppError::Unauthorized(m) => m@,
        AppError::NotFound(m) => m@,
        AppError::Internal(m) => m@,
    }
}

/// A bad request with the given message.
pub open spec fn is_bad_request(e: AppError, message: Seq<char>) -> bool {
    e matches AppError::BadRequest(m) && m@ == message
}

/// An unauthorized request with the given message.
pub open spec fn is_unauthorized(e: AppError, message: Seq<char>) -> bool {
    e matches AppError::Unauthorized(m) && m@ == message
}

/// An internal error with the given message.
pub open spec fn is_internal(e: AppError, message: Seq<char>) -> bool {
    e matches AppError::Internal(m) && m@ == message
}

} // verus!
