use teapot::http::headers::Headers;
use teapot::http::message::{Message, ParseError};

#[test]
fn message_test_parse() {
    let bytes = "HTTP/1.1\r\nX-Foo: Bar\r\n\r\nFoo".as_bytes().to_vec();

    let message = Message::parse(bytes).unwrap();

    assert_eq!("HTTP/1.1", message.start_line().as_str());

    let binding = message.headers().get_raw("x-foo");
    let foo = binding[0];
    assert_eq!("X-Foo", foo.name());
    assert_eq!("Bar", foo.value());

    assert_eq!(1, message.headers().len_raw());

    let body = String::from_utf8(message.body().clone()).unwrap();
    assert_eq!("Foo", body);
}

#[test]
fn test_parse_empty_input() {
    match Message::parse(Vec::new()) {
        Err(ParseError::MissingStartLine) => {},
        other => panic!("expected a missing-start-line error, got {:?}", other),
    }
}

#[test]
fn test_parse_without_body() {
    let message = Message::parse("HTTP/1.1\r\nX-Foo: Bar".as_bytes().to_vec()).unwrap();

    assert_eq!("HTTP/1.1", message.start_line().as_str());
    assert_eq!(1, message.headers().len_raw());
    assert!(message.body().is_empty());
}

#[test]
fn test_parse_bad_header_section() {
    match Message::parse("HTTP/1.1\r\n: nope".as_bytes().to_vec()) {
        Err(ParseError::HeaderParseError(_)) => {},
        other => panic!("expected a header parse error, got {:?}", other),
    }
}

#[test]
fn test_new_message() {
    let message = Message::new("HTTP/1.1 200 OK".to_string(), Headers::new(), b"body".to_vec());

    assert_eq!("HTTP/1.1 200 OK", message.start_line().as_str());
    assert_eq!(0, message.headers().len_raw());
    assert_eq!(b"body".to_vec(), *message.body());
}
