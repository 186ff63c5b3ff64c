//! A capability for media types split into their two halves.

use vstd::prelude::*;

verus! {

/// A media type named by its two halves: the top-level type and the subtype.
/// Implementors supply both as static text.
pub trait Mime {
    /// The top-level type, the part before the slash.
    fn top<'a>() -> &'a str;

    /// The subtype, the part after the slash.
    fn sub<'a>() -> &'a str;
}

} // verus!
