//! Error taxonomy of the core and its mapping to HTTP responses.
//!
//! Validation and authorization errors surface verbatim to the boundary;
//! persistence and codec failures are wrapped with a generic message so
//! that internal detail is never exposed to the caller.

use vstd::prelude::*;

verus! {

/// One tagged error kind per failure class of the core.
///
/// `DatabaseError` carries the wrapped detail of a persistence failure;
/// `ConflictError` reports a unique-constraint violation on an upsert race.
#[derive(Debug)]
pub enum AppError {
    AuthError(String),
    ForbiddenError(String),
    NotFoundError(String),
    ValidationError(String),
    ConflictError(String),
    DatabaseError(String),
    InternalServerError(String),
}

/// Body of an error reply: a stable machine-readable code and a message.
#[derive(Debug)]
pub struct ErrorResponse {
    pub error: String,
    pub message: String,
}

impl AppError {
    /// The HTTP status code that the boundary sends for this error.
    pub open spec fn spec_status_code(&self) -> u16 {
        match self {
            AppError::AuthError(_) => 401,
            AppError::ForbiddenError(_) => 403,
            AppError::NotFoundError(_) => 404,
            AppError::ValidationError(_) => 400,
            AppError::ConflictError(_) => 409,
            AppError::DatabaseError(_) => 500,
            AppError::InternalServerError(_) => 500,
        }
    }

    /// Whether the detail message may surface verbatim to the caller.
    /// Internal failures are reported with a generic message instead.
    pub open spec fn spec_exposes_detail(&self) -> bool {
        match self {
            AppError::AuthError(_) => true,
            AppError::ForbiddenError(_) => true,
            AppError::NotFoundError(_) => true,
            AppError::ValidationError(_) => true,
            AppError::ConflictError(_) => true,
            AppError::DatabaseError(_) => false,
            AppError::InternalServerError(_) => false,
        }
    }

    /// The detail string carried by this error.
    pub open spec fn spec_detail(&self) -> Seq<char> {
        match self {
            AppError::AuthError(m) => m@,
            AppError::ForbiddenError(m) => m@,
            AppError::NotFoundError(m) => m@,
            AppError::ValidationError(m) => m@,
            AppError::ConflictError(m) => m@,
            AppError::DatabaseError(m) => m@,
            AppError::InternalServerError(m) => m@,
        }
    }

    /// The machine-readable code of this error kind.
    pub open spec fn spec_error_code(&self) -> Seq<char> {
        match self {
            AppError::AuthError(_) => "UNAUTHORIZED"@,
            AppError::ForbiddenError(_) => "FORBIDDEN"@,
            AppError::NotFoundError(_) => "NOT_FOUND"@,
            AppError::ValidationError(_) => "VALIDATION_ERROR"@,
            AppError::ConflictError(_) => "CONFLICT"@,
            AppError::DatabaseError(_) => "DATABASE_ERROR"@,
            AppError::InternalServerError(_) => "INTERNAL_SERVER_ERROR"@,
        }
    }

    /// The HTTP status code for this error.
    pub fn status_code(&self) -> (code: u16)
        ensures
            code == self.spec_status_code(),
    {
        match self {
            AppError::AuthError(_) => 401,
            AppError::ForbiddenError(_) => 403,
            AppError::NotFoundError(_) => 404,
            AppError::ValidationError(_) => 400,
            AppError::ConflictError(_) => 409,
            AppError::DatabaseError(_) => 500,
            AppError::InternalServerError(_) => 500,
        }
    }

    /// The response body that the boundary serialises for this error.
    /// Auth, forbidden, not-found, validation and conflict errors carry
    /// their message verbatim; database and internal errors are replaced
    /// by a generic message.
    pub fn error_response(&self) -> (r: ErrorResponse)
        ensures
            r.error@ == self.spec_error_code(),
            self.spec_exposes_detail() ==> r.message@ == self.spec_detail(),
            !self.spec_exposes_detail() ==> (r.message@
                == "An internal server error occurred"@ || r.message@
                == "A database error occurred"@),
            self matches AppError::DatabaseError(_) ==> r.message@
                == "A database error occurred"@,
            self matches AppError::InternalServerError(_) ==> r.message@
                == "An internal server error occurred"@,
    {
        match self {
            AppError::AuthError(message) => ErrorResponse {
                error: String::from_str("UNAUTHORIZED"),
                message: message.clone(),
            },
            AppError::ForbiddenError(message) => ErrorResponse {
                error: String::from_str("FORBIDDEN"),
                message: message.clone(),
            },
            AppError::NotFoundError(message) => ErrorResponse {
                error: String::from_str("NOT_FOUND"),
                message: message.clone(),
            },
            AppError::ValidationError(message) => ErrorResponse {
                error: String::from_str("VALIDATION_ERROR"),
                message: message.clone(),
            },
            AppError::ConflictError(message) => ErrorResponse {
                error: String::from_str("CONFLICT"),
                message: message.clone(),
            },
            AppError::DatabaseError(_) => ErrorResponse {
                error: String::from_str("DATABASE_ERROR"),
                message: String::from_str("A database error occurred"),
            },
            AppError::InternalServerError(_) => ErrorResponse {
                error: String::from_str("INTERNAL_SERVER_ERROR"),
                message: String::from_str("An internal server error occurred"),
            },
        }
    }
}

} // verus!
