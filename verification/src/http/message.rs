//! Message assembly: reads one start line, hands the remaining bytes to the
//! header tokenizer, and keeps whatever follows the header section as the
//! opaque message body.

use vstd::prelude::*;
use vstd::utf8::{decode_utf8, valid_utf8};

use crate::http::headers::{spec_insert_all, Headers};
use crate::http::lines::{spec_after_line, spec_body, spec_first_line, spec_lines, ReadLines};
use crate::http::parse::headers::{
    parse_headers_lines, spec_tokenize, ParseError as HeaderParseError,
};
use crate::text::bytes_to_string;

verus! {

/// Why a message failed to parse: no start line at all, a start line that is
/// not valid text, a failing byte source, or a header section the tokenizer
/// rejected.
#[derive(Debug, PartialEq, Eq, Structural, Clone, Copy)]
pub enum ParseError {
    MissingStartLine,
    FromUtf8Error,
    ReadError,
    HeaderParseError(HeaderParseError),
}

impl From<HeaderParseError> for ParseError {
    /// A rejected header section aborts the message parse with the
    /// tokenizer's error wrapped.
    fn from(err: HeaderParseError) -> (r: Self) {
        ParseError::HeaderParseError(err)
    }
}

impl vstd::std_specs::convert::FromSpecImpl<HeaderParseError> for ParseError {
    open spec fn obeys_from_spec() -> bool {
        true
    }

    open spec fn from_spec(err: HeaderParseError) -> ParseError {
        ParseError::HeaderParseError(err)
    }
}

impl From<crate::http::lines::LinesError> for ParseError {
    /// A failing byte source aborts the message parse as a read error.
    fn from(err: crate::http::lines::LinesError) -> (r: Self) {
        match err {
            crate::http::lines::LinesError::ReadError => ParseError::ReadError,
        }
    }
}

impl vstd::std_specs::convert::FromSpecImpl<crate::http::lines::LinesError> for ParseError {
    open spec fn obeys_from_spec() -> bool {
        true
    }

    open spec fn from_spec(err: crate::http::lines::LinesError) -> ParseError {
        ParseError::ReadError
    }
}

/// What a byte source parses to: the start line's text, the header
/// collection's contents, and the body bytes after the header section.
pub open spec fn spec_parse(s: Seq<u8>) -> Result<
    (Seq<char>, Seq<(Seq<char>, Seq<char>)>, Seq<u8>),
    ParseError,
> {
    if s.len() == 0 {
        Err(ParseError::MissingStartLine)
    } else if !valid_utf8(spec_first_line(s)) {
        Err(ParseError::FromUtf8Error)
    } else {
        match spec_tokenize(spec_lines(spec_after_line(s))) {
            Err(e) => Err(ParseError::HeaderParseError(e)),
            Ok(pairs) => Ok(
                (
                    decode_utf8(spec_first_line(s)),
                    spec_insert_all(Seq::<(Seq<char>, Seq<char>)>::empty(), pairs),
                    spec_body(spec_after_line(s)),
                ),
            ),
        }
    }
}

/// One parsed message: its start line, its header collection, and its body
/// bytes, which this parser never inspects.
#[derive(Debug)]
pub struct Message {
    start_line: String,
    headers: Headers,
    body: Vec<u8>,
}

impl View for Message {
    type V = (Seq<char>, Seq<(Seq<char>, Seq<char>)>, Seq<u8>);

    closed spec fn view(&self) -> (Seq<char>, Seq<(Seq<char>, Seq<char>)>, Seq<u8>) {
        (self.start_line@, self.headers@, self.body@)
    }
}

impl Message {
    /// The message's header collection is well formed.
    pub closed spec fn wf(&self) -> bool {
        self.headers.wf()
    }

    /// The start line, exactly as read.
    pub fn start_line(&self) -> (r: &String)
        ensures
            r@ == self@.0,
    {
        &self.start_line
    }

    /// The header collection.
    pub fn headers(&self) -> (r: &Headers)
        ensures
            r@ == self@.1,
            self.wf() ==> r.wf(),
    {
        &self.headers
    }

    /// The body bytes: everything after the header section's empty line.
    pub fn body(&self) -> (r: &Vec<u8>)
        ensures
            r@ == self@.2,
    {
        &self.body
    }

    /// Assembles a message from its parts.
    pub fn new(start_line: String, headers: Headers, body: Vec<u8>) -> (r: Self)
        ensures
            r@ == (start_line@, headers@, body@),
            headers.wf() ==> r.wf(),
    {
        Message { start_line, headers, body }
    }

    /// Parses a byte source: the first line becomes the start line, the
    /// following lines up to the first empty line become the headers, and
    /// the rest is kept untouched as the body.
    pub fn parse(input: Vec<u8>) -> (r: Result<Message, ParseError>)
        ensures
            ({
                match r {
                    Ok(m) => spec_parse(input@) == Ok::<
                        (Seq<char>, Seq<(Seq<char>, Seq<char>)>, Seq<u8>),
                        ParseError,
                    >(m@) && m.wf(),
                    Err(e) => spec_parse(input@) == Err::<
                        (Seq<char>, Seq<(Seq<char>, Seq<char>)>, Seq<u8>),
                        ParseError,
                    >(e),
                }
            }),
    {
        let ghost s = input@;
        let mut lines = input.lines();
        let raw = match lines.next() {
            None => {
                return Err(ParseError::MissingStartLine);
            },
            Some(raw) => raw,
        };
        proof {
            assert(raw@ == spec_first_line(s));
            assert(lines.rem() == spec_after_line(s));
        }
        let start_line = match bytes_to_string(&raw) {
            Some(text) => text,
            None => {
                return Err(ParseError::FromUtf8Error);
            },
        };
        let headers = match parse_headers_lines(&mut lines) {
            Ok(h) => h,
            Err(e) => {
                return Err(ParseError::HeaderParseError(e));
            },
        };
        let body = lines.rest();
        Ok(Message { start_line, headers, body })
    }
}

} // verus!
