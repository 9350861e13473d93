//! The closed error taxonomy shared by every component: each failure kind
//! carries exactly the context needed to diagnose it, and application-level
//! failures stay distinguishable from transport-level faults.

use vstd::prelude::*;

verus! {

/// HTTP method of an outgoing request.
#[derive(Debug, Clone, Copy, PartialEq, Eq, Structural)]
pub enum HttpMethod {
    Get,
    Post,
}

impl HttpMethod {
    /// Wire name of the method.
    pub fn as_str(&self) -> (r: &'static str)
        ensures
            r@ == match self {
                HttpMethod::Get => "GET"@,
                HttpMethod::Post => "POST"@,
            },
    {
        match self {
            HttpMethod::Get => "GET",
            HttpMethod::Post => "POST",
        }
    }
}

/// Every way a call can fail, all fatal to the call. `CodeNotZero` is the
/// expected application-level outcome; the others are construction or
/// transport faults, so callers can apply different recovery strategies.
#[derive(Debug, Clone, PartialEq)]
pub enum ApiError {
    /// the credential cannot form a valid authorization header
    TokenInvalid { token: String },
    /// the transport client could not be constructed
    ClientCreateFailed { cause: String },
    /// the request could not be assembled from the given parameters
    BuildRequestFailed { cause: String },
    /// network or transport fault during send or body read
    RequestFailed { method: HttpMethod, url: String, cause: String },
    /// the HTTP status was not exactly 200
    HTTPStatusNotOK { method: HttpMethod, url: String, status: u16 },
    /// the response body is not a valid envelope
    ParseBodyFailed { body: Vec<u8> },
    /// the envelope parsed but its code is nonzero
    CodeNotZero { code: i64, message: String },
}

/// Result of any call through the request engine.
pub type ApiResult<T> = Result<T, ApiError>;

} // verus!
