//! The media types this library names, with their registry text.

use vstd::prelude::*;

verus! {

/// A named media type.
#[derive(PartialEq, Eq, Structural, Debug, Clone, Copy)]
pub enum MediaType {
    Json,
    Html,
}

/// The registry text of a media type.
pub open spec fn spec_media_type_text(m: MediaType) -> Seq<char> {
    match m {
        MediaType::Json => "application/json"@,
        MediaType::Html => "text/html"@,
    }
}

impl MediaType {
    /// The media type's registry text, `type/subtype`.
    pub fn to_string(&self) -> (r: String)
        ensures
            r@ == spec_media_type_text(*self),
    {
        match *self {
            MediaType::Json => "application/json".to_owned(),
            MediaType::Html => "text/html".to_owned(),
        }
    }
}

} // verus!
