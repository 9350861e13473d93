//! The wrapped-response envelope and the request engine's response checks,
//! in their fixed order: HTTP status exactly 200, then the envelope shape,
//! then the application code — so a nonzero code beats a data field that
//! does not fit, and a bad status is never followed by any body parsing.
//! Each stage states both when it succeeds and when each error is owed,
//! over the named parse outcomes of the JSON boundary.

use vstd::prelude::*;
use vstd::slice::slice_to_vec;
use crate::error::{ApiError, HttpMethod};
use crate::json::{envelope_head, envelope_of_slice, gateway_url_of, gateway_url_of_slice};

verus! {

/// The common response envelope: a code, a message, and per-call data.
#[derive(Debug, Clone, PartialEq)]
pub struct Response<T> {
    /// zero is success; any nonzero code is an application-level failure
    pub code: i64,
    /// error message
    pub message: String,
    /// result data, meaningful only when `code == 0`
    pub data: T,
}

impl<T> Response<T> {
    /// Unwraps the envelope: exactly the data when the code is zero, and
    /// `CodeNotZero` carrying code and message otherwise.
    pub fn into_data(self) -> (r: Result<T, ApiError>)
        ensures
            self.code == 0 <==> r is Ok,
            r matches Ok(d) ==> d == self.data,
            self.code != 0 ==> (r matches Err(e) && (e matches ApiError::CodeNotZero {
                code,
                message,
            } && code == self.code && message@ == self.message@)),
    {
        if self.code == 0 {
            Ok(self.data)
        } else {
            Err(ApiError::CodeNotZero { code: self.code, message: self.message })
        }
    }
}

/// Requires the HTTP status to be exactly 200: any other status, redirects
/// and 4xx/5xx included, is `HTTPStatusNotOK` carrying method, url and the
/// status.
pub fn check_status(method: HttpMethod, url: &str, status: u16) -> (r: Result<(), ApiError>)
    ensures
        status == 200 <==> r is Ok,
        status != 200 ==> (r matches Err(e) && (e matches ApiError::HTTPStatusNotOK {
            method: m,
            url: u,
            status: st,
        } && m == method && u@ == url@ && st == status)),
{
    if status == 200 {
        Ok(())
    } else {
        Err(ApiError::HTTPStatusNotOK { method, url: String::from_str(url), status })
    }
}

/// Reads the envelope head of a response body: succeeds, with exactly the
/// body's code and message, if and only if the body carries an envelope
/// head; anything else is `ParseBodyFailed` carrying the unmodified body.
/// The untyped `data` member is handed on.
pub fn parse_envelope(body: &[u8]) -> (r: Result<Response<serde_json::Value>, ApiError>)
    ensures
        match envelope_head(body@) {
            None => (r matches Err(e) && (e matches ApiError::ParseBodyFailed { body: b } && b@
                == body@)),
            Some(h) => (r matches Ok(env) && env.code == h.0 && env.message@ == h.1),
        },
{
    match envelope_of_slice(body) {
        None => Err(ApiError::ParseBodyFailed { body: slice_to_vec(body) }),
        Some((code, message, data)) => Ok(Response { code, message, data }),
    }
}

/// One response through the engine's checks, in order. The status must be
/// exactly 200 — else `HTTPStatusNotOK`, and the body is never parsed. On
/// a 200, the call succeeds if and only if the body carries an envelope
/// head with code zero; a body without a head is `ParseBodyFailed` with
/// the body, and a nonzero code is `CodeNotZero` with exactly that code
/// and message. On success the untyped data member comes out.
pub fn process_response(method: HttpMethod, url: &str, status: u16, body: &[u8]) -> (r: Result<
    serde_json::Value,
    ApiError,
>)
    ensures
        status != 200 ==> (r matches Err(e) && (e matches ApiError::HTTPStatusNotOK {
            method: m,
            url: u,
            status: st,
        } && m == method && u@ == url@ && st == status)),
        status == 200 ==> match envelope_head(body@) {
            None => (r matches Err(e) && (e matches ApiError::ParseBodyFailed { body: b } && b@
                == body@)),
            Some(h) => {
                if h.0 == 0 {
                    r is Ok
                } else {
                    (r matches Err(e) && (e matches ApiError::CodeNotZero { code, message }
                        && code == h.0 && message@ == h.1))
                }
            },
        },
{
    match check_status(method, url, status) {
        Err(e) => {
            return Err(e);
        },
        Ok(()) => {},
    }
    let envelope = match parse_envelope(body) {
        Err(e) => {
            return Err(e);
        },
        Ok(envelope) => envelope,
    };
    envelope.into_data()
}

/// The `/gateway/index` payload: the URL of the gateway to connect to.
#[derive(Debug, Clone, PartialEq)]
pub struct GatewayIndexData {
    /// gateway url
    pub url: String,
}

/// The whole `/gateway/index` pipeline from one HTTP exchange to the raw
/// gateway URL string. After the status, envelope and code checks of
/// `process_response`, the call returns exactly the body's `data.url`
/// string, unaltered; a payload without one is `ParseBodyFailed` carrying
/// the body.
pub fn gateway_url_from_response(method: HttpMethod, url: &str, status: u16, body: &[u8]) -> (r:
    Result<String, ApiError>)
    ensures
        status != 200 ==> (r matches Err(e) && (e matches ApiError::HTTPStatusNotOK {
            method: m,
            url: u,
            status: st,
        } && m == method && u@ == url@ && st == status)),
        status == 200 ==> match envelope_head(body@) {
            None => (r matches Err(e) && (e matches ApiError::ParseBodyFailed { body: b } && b@
                == body@)),
            Some(h) => {
                if h.0 != 0 {
                    (r matches Err(e) && (e matches ApiError::CodeNotZero { code, message }
                        && code == h.0 && message@ == h.1))
                } else {
                    match gateway_url_of(body@) {
                        None => (r matches Err(e) && (e matches ApiError::ParseBodyFailed {
                            body: b,
                        } && b@ == body@)),
                        Some(u) => (r matches Ok(s) && s@ == u),
                    }
                }
            },
        },
{
    match process_response(method, url, status, body) {
        Err(e) => {
            return Err(e);
        },
        Ok(_) => {},
    }
    match gateway_url_of_slice(body) {
        None => Err(ApiError::ParseBodyFailed { body: slice_to_vec(body) }),
        Some(u) => Ok(GatewayIndexData { url: u }.url),
    }
}

} // verus!
