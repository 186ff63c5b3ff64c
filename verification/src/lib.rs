//! A byte-stream header tokenizer for HTTP/1.1-style text protocols.
//!
//! The crate splits a byte source into logical lines, runs a finite-state
//! tokenizer over those lines to extract header name/value pairs, stores the
//! pairs in an ordered, duplicate-free collection with case-insensitive
//! lookup, and offers a typed-header layer that converts between raw pairs
//! and structured values.

pub mod http;
pub mod media_type;
pub mod mime;
pub mod text;
