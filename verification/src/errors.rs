//! The error taxonomy of the authentication core, with the HTTP status
//! and stable short message that each category maps to. Failures that
//! touch credentials stay coarse-grained on purpose: a caller cannot
//! tell an unknown account from a wrong password.

use vstd::prelude::*;

verus! {

#[derive(Clone, Copy, Debug, PartialEq, Eq, Structural)]
pub enum AppError {
    AuthenticationError,
    NotFound,
    DatabaseError,
    InternalServerError,
    RateLimitExceeded,
    UserAlreadyExists,
    InvalidCredentials,
    InvalidEmail,
    InvalidPassword,
    EmailNotVerified,
    InsufficientPermissions,
}

impl AppError {
    /// The HTTP status code that a response layer should use for this error.
    pub fn status_code(&self) -> (code: u16)
        ensures
            code == self.spec_status_code(),
    {
        match self {
            AppError::AuthenticationError => 401,
            AppError::NotFound => 404,
            AppError::DatabaseError => 500,
            AppError::InternalServerError => 500,
            AppError::RateLimitExceeded => 429,
            AppError::UserAlreadyExists => 409,
            AppError::InvalidCredentials => 401,
            AppError::InvalidEmail => 400,
            AppError::InvalidPassword => 400,
            AppError::EmailNotVerified => 403,
            AppError::InsufficientPermissions => 403,
        }
    }

    pub open spec fn spec_status_code(&self) -> u16 {
        match self {
            AppError::AuthenticationError => 401,
            AppError::NotFound => 404,
            AppError::DatabaseError => 500,
            AppError::InternalServerError => 500,
            AppError::RateLimitExceeded => 429,
            AppError::UserAlreadyExists => 409,
            AppError::InvalidCredentials => 401,
            AppError::InvalidEmail => 400,
            AppError::InvalidPassword => 400,
            AppError::EmailNotVerified => 403,
            AppError::InsufficientPermissions => 403,
        }
    }

    /// The stable short message surfaced in a response body; internal
    /// detail never leaks through it.
    pub fn message(&self) -> (m: &'static str)
        ensures
            self matches AppError::AuthenticationError ==> m@ == "Authentication failed"@,
            self matches AppError::NotFound ==> m@ == "Resource not found"@,
            self matches AppError::RateLimitExceeded ==> m@ == "Rate limit exceeded"@,
            self matches AppError::UserAlreadyExists ==> m@ == "User already exists"@,
            self matches AppError::InvalidPassword ==> m@
                == "Password does not meet requirements"@,
    {
        match self {
            AppError::AuthenticationError => "Authentication failed",
            AppError::NotFound => "Resource not found",
            AppError::DatabaseError => "Database error",
            AppError::InternalServerError => "Internal server error",
            AppError::RateLimitExceeded => "Rate limit exceeded",
            AppError::UserAlreadyExists => "User already exists",
            AppError::InvalidCredentials => "Invalid credentials",
            AppError::InvalidEmail => "Invalid email format",
            AppError::InvalidPassword => "Password does not meet requirements",
            AppError::EmailNotVerified => "Email not verified",
            AppError::InsufficientPermissions => "Insufficient permissions",
        }
    }
}

} // verus!
