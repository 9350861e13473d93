use kaiheila::envelope::{
    check_status, gateway_url_from_response, parse_envelope, process_response, Response,
};
use kaiheila::error::{ApiError, HttpMethod};

const URL: &str = "https://mock/api/v3/gateway/index";

#[test]
fn gateway_url_success() {
    let body =
        br#"{"code":0,"message":"","data":{"url":"wss://host/path?token=abc&compress=1"}}"#;
    let r = gateway_url_from_response(HttpMethod::Get, URL, 200, body);
    assert_eq!(r.unwrap(), "wss://host/path?token=abc&compress=1");
}

#[test]
fn nonzero_code_beats_untyped_data() {
    let body = br#"{"code":41001,"message":"guild not found","data":null}"#;
    match gateway_url_from_response(HttpMethod::Get, URL, 200, body) {
        Err(ApiError::CodeNotZero { code, message }) => {
            assert_eq!(code, 41001);
            assert_eq!(message, "guild not found");
        },
        other => panic!("expected CodeNotZero, got {:?}", other),
    }
}

#[test]
fn status_404_skips_body_parsing() {
    // the body is not even JSON; the status alone decides
    let body = b"<html>not found</html>";
    match gateway_url_from_response(HttpMethod::Get, URL, 404, body) {
        Err(ApiError::HTTPStatusNotOK { status, method, url }) => {
            assert_eq!(status, 404);
            assert_eq!(method, HttpMethod::Get);
            assert_eq!(url, URL);
        },
        other => panic!("expected HTTPStatusNotOK, got {:?}", other),
    }
}

#[test]
fn garbage_body_is_parse_body_failed() {
    let body = b"not json at all";
    match process_response(HttpMethod::Get, URL, 200, body) {
        Err(ApiError::ParseBodyFailed { body: b }) => assert_eq!(b, body.to_vec()),
        other => panic!("expected ParseBodyFailed, got {:?}", other),
    }
}

#[test]
fn missing_code_is_parse_body_failed() {
    let body = br#"{"message":"","data":null}"#;
    assert!(matches!(
        parse_envelope(body),
        Err(ApiError::ParseBodyFailed { .. })
    ));
}

#[test]
fn missing_message_is_parse_body_failed() {
    let body = br#"{"code":0,"data":null}"#;
    assert!(matches!(
        parse_envelope(body),
        Err(ApiError::ParseBodyFailed { .. })
    ));
}

#[test]
fn missing_data_is_parse_body_failed() {
    let body = br#"{"code":0,"message":""}"#;
    assert!(matches!(
        parse_envelope(body),
        Err(ApiError::ParseBodyFailed { .. })
    ));
}

#[test]
fn non_integer_code_is_parse_body_failed() {
    let body = br#"{"code":"0","message":"","data":null}"#;
    assert!(matches!(
        parse_envelope(body),
        Err(ApiError::ParseBodyFailed { .. })
    ));
}

#[test]
fn envelope_head_reads_fields() {
    let body = br#"{"code":7,"message":"m","data":[1,2]}"#;
    let envelope = parse_envelope(body).unwrap();
    assert_eq!(envelope.code, 7);
    assert_eq!(envelope.message, "m");
}

#[test]
fn data_without_url_is_parse_body_failed() {
    let body = br#"{"code":0,"message":"","data":{"other":1}}"#;
    match gateway_url_from_response(HttpMethod::Get, URL, 200, body) {
        Err(ApiError::ParseBodyFailed { body: b }) => assert_eq!(b, body.to_vec()),
        other => panic!("expected ParseBodyFailed, got {:?}", other),
    }
}

#[test]
fn check_status_exactly_200() {
    assert!(check_status(HttpMethod::Post, URL, 200).is_ok());
    for status in [100u16, 201, 204, 301, 302, 400, 401, 403, 404, 500, 502] {
        match check_status(HttpMethod::Post, URL, status) {
            Err(ApiError::HTTPStatusNotOK { status: st, .. }) => assert_eq!(st, status),
            other => panic!("expected HTTPStatusNotOK, got {:?}", other),
        }
    }
}

#[test]
fn into_data_unwraps_on_zero() {
    let envelope = Response { code: 0, message: String::new(), data: 42u32 };
    assert_eq!(envelope.into_data().unwrap(), 42);
}

#[test]
fn into_data_code_not_zero() {
    let envelope = Response { code: -3, message: String::from("oops"), data: 42u32 };
    match envelope.into_data() {
        Err(ApiError::CodeNotZero { code, message }) => {
            assert_eq!(code, -3);
            assert_eq!(message, "oops");
        },
        other => panic!("expected CodeNotZero, got {:?}", other),
    }
}
