//! Trusted boundary to the JSON library. The JSON value type is declared
//! opaque; what a body means is captured by two named parse outcomes —
//! functions of the bytes alone — which the wrappers' contracts apply and
//! verified code reasons over.

use vstd::prelude::*;

verus! {

#[verifier::external_type_specification]
#[verifier::external_body]
pub struct ExValue(serde_json::Value);

/// The envelope head a body parses to, if any: the body must be JSON whose
/// `code` member is an integer in `i64` range, whose `message` member is a
/// string, and whose `data` member is present. The result is a function of
/// the bytes alone.
pub uninterp spec fn envelope_head(body: Seq<u8>) -> Option<(i64, Seq<char>)>;

/// The gateway URL a body carries, if any: the string `url` member of the
/// body's `data` object. A function of the bytes alone; it does not look at
/// the envelope head, which the pipeline checks first.
pub uninterp spec fn gateway_url_of(body: Seq<u8>) -> Option<Seq<char>>;

/// Relies on `serde_json::from_slice` and the member accessors of
/// `serde_json::Value`: parses the body once and reads the envelope's
/// `code`, `message` and `data` members — the one parse the request engine
/// makes. The untyped `data` value rides along for the caller to hand on.
#[verifier::external_body]
pub fn envelope_of_slice(body: &[u8]) -> (r: Option<(i64, String, serde_json::Value)>)
    ensures
        match r {
            None => envelope_head(body@) is None,
            Some(h) => envelope_head(body@) == Some((h.0, h.1@)),
        },
{
    let v: serde_json::Value = serde_json::from_slice(body).ok()?;
    let code = v.get("code")?.as_i64()?;
    let message = v.get("message")?.as_str()?.to_owned();
    let data = v.get("data")?.clone();
    Some((code, message, data))
}

/// Relies on `serde_json::from_slice` and the member accessors of
/// `serde_json::Value`: reads the string `url` member of the body's `data`
/// object.
#[verifier::external_body]
pub fn gateway_url_of_slice(body: &[u8]) -> (r: Option<String>)
    ensures
        match r {
            None => gateway_url_of(body@) is None,
            Some(u) => gateway_url_of(body@) == Some(u@),
        },
{
    let v: serde_json::Value = serde_json::from_slice(body).ok()?;
    Some(v.get("data")?.get("url")?.as_str()?.to_owned())
}

} // verus!
