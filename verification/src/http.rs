//! The HTTP-flavoured core: line reading, header tokenizing, header storage,
//! typed headers, messages and status codes.

pub mod headers;
pub mod lines;
pub mod message;
pub mod parse;
pub mod status;
