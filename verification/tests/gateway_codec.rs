use kaiheila::gateway::{GatewayResumeArguments, GatewayURLInfo, ParseGatewayURLError};

fn addr_plain() -> GatewayURLInfo {
    GatewayURLInfo {
        schema: String::from("wss"),
        host: String::from("h"),
        port: None,
        path: String::from("/p"),
        compress: true,
        token: String::from("abc"),
        resume: None,
    }
}

fn addr_full() -> GatewayURLInfo {
    GatewayURLInfo {
        schema: String::from("wss"),
        host: String::from("example.com"),
        port: Some(8443),
        path: String::from("/gateway"),
        compress: false,
        token: String::from("t0k"),
        resume: Some(GatewayResumeArguments { sn: 123, session_id: String::from("sess") }),
    }
}

#[test]
fn build_plain_exact() {
    assert_eq!(addr_plain().url(), "wss://h/p?compress=1&token=abc");
}

#[test]
fn build_full_exact() {
    assert_eq!(
        addr_full().url(),
        "wss://example.com:8443/gateway?compress=0&token=t0k&resume=1&sn=123&session_id=sess"
    );
}

#[test]
fn round_trip_plain() {
    let a = addr_plain();
    assert_eq!(GatewayURLInfo::parse(&a.url()).unwrap(), a);
}

#[test]
fn round_trip_full() {
    let a = addr_full();
    assert_eq!(GatewayURLInfo::parse(&a.url()).unwrap(), a);
}

#[test]
fn round_trip_ws_scheme_and_zero_sn() {
    let a = GatewayURLInfo {
        schema: String::from("ws"),
        host: String::from("127.0.0.1"),
        port: Some(80),
        path: String::from("/"),
        compress: false,
        token: String::from(""),
        resume: Some(GatewayResumeArguments { sn: 0, session_id: String::from("x y") }),
    };
    assert_eq!(GatewayURLInfo::parse(&a.url()).unwrap(), a);
}

#[test]
fn round_trip_max_sn() {
    let a = GatewayURLInfo {
        schema: String::from("ws"),
        host: String::from("gw.internal"),
        port: None,
        path: String::from("/deep/path"),
        compress: true,
        token: String::from("a=b?c"),
        resume: Some(GatewayResumeArguments {
            sn: u64::MAX,
            session_id: String::from("id-42"),
        }),
    };
    assert_eq!(GatewayURLInfo::parse(&a.url()).unwrap(), a);
}

#[test]
fn parse_reads_every_field() {
    let a = GatewayURLInfo::parse("wss://host:99/path?compress=1&token=abc").unwrap();
    assert_eq!(a.schema, "wss");
    assert_eq!(a.host, "host");
    assert_eq!(a.port, Some(99));
    assert_eq!(a.path, "/path");
    assert!(a.compress);
    assert_eq!(a.token, "abc");
    assert!(a.resume.is_none());
}

#[test]
fn parse_not_a_url() {
    match GatewayURLInfo::parse("notaurl") {
        Err(ParseGatewayURLError::InvalidURL { s }) => assert_eq!(s, "notaurl"),
        other => panic!("expected InvalidURL, got {:?}", other),
    }
}

#[test]
fn parse_bad_port_is_invalid_url() {
    assert!(matches!(
        GatewayURLInfo::parse("ws://h:x/p?token=a"),
        Err(ParseGatewayURLError::InvalidURL { .. })
    ));
    assert!(matches!(
        GatewayURLInfo::parse("ws://h:70000/p?token=a"),
        Err(ParseGatewayURLError::InvalidURL { .. })
    ));
}

#[test]
fn parse_wrong_scheme() {
    match GatewayURLInfo::parse("http://h/p?token=a") {
        Err(ParseGatewayURLError::InvalidSchema { schema, .. }) => assert_eq!(schema, "http"),
        other => panic!("expected InvalidSchema, got {:?}", other),
    }
}

#[test]
fn parse_no_host() {
    assert!(matches!(
        GatewayURLInfo::parse("ws://?token=a"),
        Err(ParseGatewayURLError::NoHost { .. })
    ));
}

#[test]
fn parse_missing_token() {
    assert!(matches!(
        GatewayURLInfo::parse("ws://h/p"),
        Err(ParseGatewayURLError::NoToken { .. })
    ));
    assert!(matches!(
        GatewayURLInfo::parse("ws://h/p?compress=1"),
        Err(ParseGatewayURLError::NoToken { .. })
    ));
}

#[test]
fn parse_resume_missing_sn() {
    assert!(matches!(
        GatewayURLInfo::parse("ws://h/p?token=a&resume=1"),
        Err(ParseGatewayURLError::NoSN { .. })
    ));
    assert!(matches!(
        GatewayURLInfo::parse("ws://h/p?token=a&resume=1&session_id=s"),
        Err(ParseGatewayURLError::NoSN { .. })
    ));
}

#[test]
fn parse_resume_missing_session_id() {
    assert!(matches!(
        GatewayURLInfo::parse("ws://h/p?token=a&resume=1&sn=5"),
        Err(ParseGatewayURLError::NoSessionID { .. })
    ));
}

#[test]
fn parse_resume_bad_sn() {
    assert!(matches!(
        GatewayURLInfo::parse("ws://h/p?token=a&resume=1&sn=abc&session_id=s"),
        Err(ParseGatewayURLError::InvalidSN { .. })
    ));
    // overflow of u64 is a parse failure too
    assert!(matches!(
        GatewayURLInfo::parse("ws://h/p?token=a&resume=1&sn=99999999999999999999&session_id=s"),
        Err(ParseGatewayURLError::InvalidSN { .. })
    ));
}

#[test]
fn parse_resume_off_unless_exactly_one() {
    let a = GatewayURLInfo::parse("ws://h/p?token=a&resume=2&sn=5&session_id=s").unwrap();
    assert!(a.resume.is_none());
    let b = GatewayURLInfo::parse("ws://h/p?token=a&resume=1&sn=5&session_id=s").unwrap();
    assert_eq!(
        b.resume,
        Some(GatewayResumeArguments { sn: 5, session_id: String::from("s") })
    );
}

#[test]
fn parse_compress_variants() {
    assert!(GatewayURLInfo::parse("ws://h/p?token=a&compress=1").unwrap().compress);
    assert!(!GatewayURLInfo::parse("ws://h/p?token=a&compress=0").unwrap().compress);
    assert!(!GatewayURLInfo::parse("ws://h/p?token=a&compress=2").unwrap().compress);
    assert!(!GatewayURLInfo::parse("ws://h/p?token=a").unwrap().compress);
}

#[test]
fn parse_decodes_query_values() {
    let a = GatewayURLInfo::parse("ws://h/p?token=a%20b&compress=1").unwrap();
    assert_eq!(a.token, "a b");
    let b = GatewayURLInfo::parse("ws://h/p?token=a+b").unwrap();
    assert_eq!(b.token, "a b");
}

#[test]
fn parse_duplicate_key_last_wins() {
    let a = GatewayURLInfo::parse("ws://h/p?token=a&token=b").unwrap();
    assert_eq!(a.token, "b");
}

#[test]
fn parse_drops_fragment() {
    let a = GatewayURLInfo::parse("ws://h/p?token=a#frag").unwrap();
    assert_eq!(a.token, "a");
    assert_eq!(a.path, "/p");
}

#[test]
fn parse_empty_path_reads_as_root() {
    let a = GatewayURLInfo::parse("ws://h?token=a").unwrap();
    assert_eq!(a.path, "/");
    assert_eq!(a.host, "h");
}

#[test]
fn parse_folds_scheme_case() {
    let a = GatewayURLInfo::parse("WS://h/p?token=a").unwrap();
    assert_eq!(a.schema, "ws");
    let b = GatewayURLInfo::parse("wSS://h/p?token=a").unwrap();
    assert_eq!(b.schema, "wss");
    match GatewayURLInfo::parse("HTTP://h/p?token=a") {
        Err(ParseGatewayURLError::InvalidSchema { schema, .. }) => assert_eq!(schema, "http"),
        other => panic!("expected InvalidSchema, got {:?}", other),
    }
}

#[test]
fn parse_drops_user_information() {
    let a = GatewayURLInfo::parse("ws://user:pw@h:81/p?token=a").unwrap();
    assert_eq!(a.host, "h");
    assert_eq!(a.port, Some(81));
    assert_eq!(a.path, "/p");
}

#[test]
fn parse_sn_accepts_a_leading_plus() {
    // '+' itself would decode to a space, so the sign arrives percent-encoded
    let a = GatewayURLInfo::parse("ws://h/p?token=a&resume=1&sn=%2B5&session_id=s").unwrap();
    assert_eq!(a.resume.unwrap().sn, 5);
    // an unencoded '+' decodes to a space, which no unsigned parser takes
    assert!(matches!(
        GatewayURLInfo::parse("ws://h/p?token=a&resume=1&sn=+5&session_id=s"),
        Err(ParseGatewayURLError::InvalidSN { .. })
    ));
}

#[test]
fn parse_empty_port_reads_as_none() {
    let a = GatewayURLInfo::parse("ws://h:/p?token=a").unwrap();
    assert_eq!(a.port, None);
}
