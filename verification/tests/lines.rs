use teapot::http::lines::{Lines, ReadLines};

#[test]
fn test_iterator() {
    let bytes = "Foo\r\nBar\r\nBaz\r\n\r\nQux".as_bytes();
    let mut iter = Lines::new(bytes.to_vec());

    assert_eq!("Foo".to_string().into_bytes(), iter.next().unwrap());
    assert_eq!("Bar".to_string().into_bytes(), iter.next().unwrap());
    assert_eq!("Baz".to_string().into_bytes(), iter.next().unwrap());
    assert_eq!("".to_string().into_bytes(), iter.next().unwrap());
    assert_eq!("Qux".to_string().into_bytes(), iter.next().unwrap());
    assert!(iter.next().is_none());
}

#[test]
fn test_single_line_without_terminator() {
    let mut iter = Lines::new(b"no terminator here".to_vec());

    assert_eq!(b"no terminator here".to_vec(), iter.next().unwrap());
    assert!(iter.next().is_none());
}

#[test]
fn test_empty_source_yields_no_line() {
    let mut iter = Lines::new(Vec::new());

    assert!(iter.next().is_none());
}

#[test]
fn test_bare_linefeed_is_content() {
    let mut iter = Lines::new(b"a\nb\r\nc".to_vec());

    assert_eq!(b"a\nb".to_vec(), iter.next().unwrap());
    assert_eq!(b"c".to_vec(), iter.next().unwrap());
    assert!(iter.next().is_none());
}

#[test]
fn test_trailing_carriage_return_kept() {
    let mut iter = Lines::new(b"a\r".to_vec());

    assert_eq!(b"a\r".to_vec(), iter.next().unwrap());
    assert!(iter.next().is_none());
}

#[test]
fn test_rest_after_line() {
    let mut iter = "head\r\nbody".as_bytes().lines();

    assert_eq!(b"head".to_vec(), iter.next().unwrap());
    assert_eq!(b"body".to_vec(), iter.rest());
}
