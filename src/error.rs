use vstd::prelude::*;

verus! {

/// Every failure a core operation can report, one variant per kind.
#[derive(Debug, Clone, Copy, PartialEq, Eq, Structural)]
pub enum AppError {
    /// Malformed or missing request fields.
    Validation,
    /// Missing or malformed credentials, a bad signature, an expired token.
    Unauthorized,
    /// The email is already registered.
    Conflict,
    /// No record carries the requested identifier.
    NotFound,
    /// The user table rejected the operation.
    Database,
    /// The password hashing primitive failed.
    Crypto,
    /// Any other unexpected failure, including the signing primitive.
    Internal,
}

pub open spec fn status_of(e: AppError) -> u16 {
    match e {
        AppError::Validation => 400,
        AppError::Unauthorized => 401,
        AppError::Conflict => 409,
        AppError::NotFound => 404,
        AppError::Database => 500,
        AppError::Crypto => 500,
        AppError::Internal => 500,
    }
}

impl AppError {
    /// The HTTP status that the transport layer answers with.
    pub fn status_code(&self) -> (r: u16)
        ensures
            r == status_of(*self),
    {
        match self {
            AppError::Validation => 400,
            AppError::Unauthorized => 401,
            AppError::Conflict => 409,
            AppError::NotFound => 404,
            AppError::Database => 500,
            AppError::Crypto => 500,
            AppError::Internal => 500,
        }
    }

    /// The stable tag placed under `error` in the response body.
    pub fn error_tag(&self) -> (r: &'static str)
        ensures
            r@ == match *self {
                AppError::Validation => "Validation error"@,
                AppError::Unauthorized => "Unauthorized"@,
                AppError::Conflict => "Resource conflict"@,
                AppError::NotFound => "Resource not found"@,
                AppError::Database => "Database error"@,
                AppError::Crypto => "Password hashing error"@,
                AppError::Internal => "Internal server error"@,
            },
    {
        match self {
            AppError::Validation => "Validation error",
            AppError::Unauthorized => "Unauthorized",
            AppError::Conflict => "Resource conflict",
            AppError::NotFound => "Resource not found",
            AppError::Database => "Database error",
            AppError::Crypto => "Password hashing error",
            AppError::Internal => "Internal server error",
        }
    }

    /// The human message placed under `message`; deliberately generic, so that
    /// no underlying cause reaches the caller.
    pub fn message(&self) -> (r: &'static str)
        ensures
            r@ == match *self {
                AppError::Validation => "Request fields are missing or malformed"@,
                AppError::Unauthorized => "Invalid credentials or token"@,
                AppError::Conflict => "Email already exists"@,
                AppError::NotFound => "User not found"@,
                AppError::Database => "Storage failure"@,
                AppError::Crypto => "Credential processing failure"@,
                AppError::Internal => "Internal failure"@,
            },
    {
        match self {
            AppError::Validation => "Request fields are missing or malformed",
            AppError::Unauthorized => "Invalid credentials or token",
            AppError::Conflict => "Email already exists",
            AppError::NotFound => "User not found",
            AppError::Database => "Storage failure",
            AppError::Crypto => "Credential processing failure",
            AppError::Internal => "Internal failure",
        }
    }
}

} // verus!
