//! Error types shared across the library and their HTTP projection.
use vstd::prelude::*;

verus! {

/// Validation failures of the domain value types.
#[derive(Debug, Clone, Copy, PartialEq, Eq, Structural)]
pub enum DomainError {
    /// A bucket id must not be empty.
    EmptyBucketId,
    /// A key must hold between 1 and 128 bytes.
    InvalidKey,
    /// A stored value may hold at most 16 KiB.
    ValueTooLarge,
    /// An expiry instant falls outside the representable calendar range.
    TimestampOutOfRange,
}

/// Failures of the application layer (use cases and repositories).
#[derive(Debug)]
pub enum UseCaseError {
    NotImplemented,
    NotFound,
    Domain(DomainError),
    /// Persistence or adapter failure (message is sanitized; no secrets).
    Storage(String),
}

/// Authentication resolution failure (caller maps to HTTP 401).
#[derive(Debug, Clone, Copy, PartialEq, Eq, Structural)]
pub enum AuthError {
    InvalidCredential,
    /// Root or signing key bytes are unusable for HMAC.
    InvalidKeyMaterial,
}

/// Temporary token mint or verify failure.
#[derive(Debug, Clone, Copy, PartialEq, Eq, Structural)]
pub enum TokenError {
    InvalidFormat,
    InvalidSignature,
    Expired,
    BucketMismatch,
    GenerationMismatch,
    NoSigningKey,
    Serialize,
}

/// Technical errors that are not domain, HTTP, or storage specific.
#[derive(Debug, Clone, Copy, PartialEq, Eq, Structural)]
pub enum SupportError {
    InvalidSecret,
}

/// The HTTP-facing error of a request: each variant is one status code with
/// its stable message in the JSON error envelope.
#[derive(Debug, Clone, Copy, PartialEq, Eq, Structural)]
pub enum ApiError {
    BadRequest,
    Unauthorized,
    Forbidden,
    NotFound,
    MethodNotAllowed,
    NotAcceptable,
    RateLimitExceeded,
    InternalError,
    NotImplemented,
    ServiceUnavailable,
}

/// `{"code": .., "message": ..}` inside the error envelope.
#[derive(Debug, Clone)]
pub struct ErrorDetail {
    pub code: u16,
    pub message: String,
}

/// The stable JSON error envelope: `{"error": {"code": .., "message": ..}}`.
#[derive(Debug, Clone)]
pub struct ErrorBody {
    pub error: ErrorDetail,
}

/// HTTP status code of each error.
pub open spec fn spec_status(e: ApiError) -> u16 {
    match e {
        ApiError::BadRequest => 400,
        ApiError::Unauthorized => 401,
        ApiError::Forbidden => 403,
        ApiError::NotFound => 404,
        ApiError::MethodNotAllowed => 405,
        ApiError::NotAcceptable => 406,
        ApiError::RateLimitExceeded => 429,
        ApiError::InternalError => 500,
        ApiError::NotImplemented => 501,
        ApiError::ServiceUnavailable => 503,
    }
}

/// Stable message of each error in the envelope.
pub open spec fn spec_message(e: ApiError) -> Seq<char> {
    match e {
        ApiError::BadRequest => "bad_request"@,
        ApiError::Unauthorized => "unauthorized"@,
        ApiError::Forbidden => "forbidden"@,
        ApiError::NotFound => "not_found"@,
        ApiError::MethodNotAllowed => "method_not_allowed"@,
        ApiError::NotAcceptable => "not_acceptable"@,
        ApiError::RateLimitExceeded => "rate_limit_exceeded"@,
        ApiError::InternalError => "internal_error"@,
        ApiError::NotImplemented => "not_implemented"@,
        ApiError::ServiceUnavailable => "service_unavailable"@,
    }
}

impl ApiError {
    /// The HTTP status code of this error.
    pub fn status(&self) -> (r: u16)
        ensures
            r == spec_status(*self),
    {
        match self {
            ApiError::BadRequest => 400,
            ApiError::Unauthorized => 401,
            ApiError::Forbidden => 403,
            ApiError::NotFound => 404,
            ApiError::MethodNotAllowed => 405,
            ApiError::NotAcceptable => 406,
            ApiError::RateLimitExceeded => 429,
            ApiError::InternalError => 500,
            ApiError::NotImplemented => 501,
            ApiError::ServiceUnavailable => 503,
        }
    }

    /// The stable message of this error in the envelope.
    pub fn message(&self) -> (r: &'static str)
        ensures
            r@ == spec_message(*self),
    {
        match self {
            ApiError::BadRequest => "bad_request",
            ApiError::Unauthorized => "unauthorized",
            ApiError::Forbidden => "forbidden",
            ApiError::NotFound => "not_found",
            ApiError::MethodNotAllowed => "method_not_allowed",
            ApiError::NotAcceptable => "not_acceptable",
            ApiError::RateLimitExceeded => "rate_limit_exceeded",
            ApiError::InternalError => "internal_error",
            ApiError::NotImplemented => "not_implemented",
            ApiError::ServiceUnavailable => "service_unavailable",
        }
    }

    /// The JSON envelope for this error.
    pub fn body(&self) -> (r: ErrorBody)
        ensures
            r.error.code == spec_status(*self),
            r.error.message@ == spec_message(*self),
    {
        let m = self.message();
        ErrorBody { error: ErrorDetail { code: self.status(), message: m.to_owned() } }
    }
}

/// Maps storage / orchestration failures from the use-case layer to a generic HTTP 500.
pub fn map_use_case_repo_err(err: UseCaseError) -> (r: ApiError)
    ensures
        r == ApiError::InternalError,
{
    ApiError::InternalError
}

} // verus!
