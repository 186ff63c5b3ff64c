use teapot::http::lines::ReadLines;
use teapot::http::parse::headers::{parse_headers, ParseError, State};

#[test]
fn headers_test_parse() {
    let raw = "Host: example.com\r\nUser-Agent: curl/7.51.0\r\nAccept: */*"
        .as_bytes()
        .to_vec()
        .lines();
    let headers = parse_headers(raw).unwrap();

    let binding = headers.get_raw("host");
    let host = binding[0];
    assert_eq!("Host", host.name());
    assert_eq!("example.com", host.value());

    let binding = headers.get_raw("user-agent");
    let ua = binding[0];
    assert_eq!("User-Agent", ua.name());
    assert_eq!("curl/7.51.0", ua.value());

    let binding = headers.get_raw("accept");
    let accept = binding[0];
    assert_eq!("Accept", accept.name());
    assert_eq!("*/*", accept.value());
}

#[test]
fn test_continuation_parse() {
    let raw = "X-Foo: Bar\r\n Qux\r\nX-Baz: Bar".as_bytes().to_vec().lines();
    let headers = parse_headers(raw).unwrap();

    let binding = headers.get_raw("X-Foo");
    let foo = binding[0];
    assert_eq!("X-Foo", foo.name());
    assert_eq!("Bar Qux", foo.value());

    let binding = headers.get_raw("X-baz");
    let baz = binding[0];
    assert_eq!("X-Baz", baz.name());
    assert_eq!("Bar", baz.value());
}

#[test]
fn test_folding_collapses_whitespace() {
    let raw = "X-Foo: Bar\r\n\t\t  Qux".as_bytes().to_vec().lines();
    let headers = parse_headers(raw).unwrap();

    assert_eq!("Bar Qux", headers.get_raw("x-foo")[0].value());
}

#[test]
fn test_stops_at_empty_line() {
    let raw = "A: 1\r\n\r\nB: 2".as_bytes().to_vec().lines();
    let headers = parse_headers(raw).unwrap();

    assert_eq!(1, headers.len_raw());
    assert_eq!("1", headers.get_raw("a")[0].value());
    assert!(headers.get_raw("b").is_empty());
}

#[test]
fn test_colon_at_line_start_rejected() {
    let raw = ": oops".as_bytes().to_vec().lines();

    match parse_headers(raw) {
        Err(ParseError::UnexpectedCharacterError(byte)) => assert_eq!(b':', byte),
        other => panic!("expected an unexpected-character error, got {:?}", other),
    }
}

#[test]
fn test_control_byte_in_name_rejected() {
    let raw = b"X-\x01oo: bar".to_vec().lines();

    match parse_headers(raw) {
        Err(ParseError::UnexpectedCharacterError(byte)) => assert_eq!(0x01, byte),
        other => panic!("expected an unexpected-character error, got {:?}", other),
    }
}

#[test]
fn test_control_byte_in_value_rejected() {
    let raw = b"X-Foo: ba\x01r".to_vec().lines();

    match parse_headers(raw) {
        Err(ParseError::UnexpectedCharacterError(byte)) => assert_eq!(0x01, byte),
        other => panic!("expected an unexpected-character error, got {:?}", other),
    }
}

#[test]
fn test_invalid_text_in_value_rejected() {
    let raw = b"X-Foo: b\xffar".to_vec().lines();

    match parse_headers(raw) {
        Err(ParseError::FromUtf8Error) => {},
        other => panic!("expected an invalid-text error, got {:?}", other),
    }
}

#[test]
fn test_pending_pair_committed_at_exhaustion() {
    let raw = "X-Last: pending".as_bytes().to_vec().lines();
    let headers = parse_headers(raw).unwrap();

    assert_eq!(1, headers.len_raw());
    assert_eq!("pending", headers.get_raw("x-last")[0].value());
}

#[test]
fn test_empty_input_gives_no_headers() {
    let raw = "".as_bytes().to_vec().lines();
    let headers = parse_headers(raw).unwrap();

    assert_eq!(0, headers.len_raw());
}

#[test]
fn test_fresh_state() {
    let _state = State::new();
}
