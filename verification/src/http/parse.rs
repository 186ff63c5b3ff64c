//! Byte classification for the header tokenizer: token characters,
//! horizontal whitespace and control characters.

pub mod headers;

use vstd::prelude::*;

verus! {

/// Lower bound of the ASCII control range.
pub const ASCII_CONTROL_LOWER_BOUND: u8 = 0;

/// Upper bound of the ASCII control range.
pub const ASCII_CONTROL_UPPER_BOUND: u8 = 31;

/// ASCII delete.
pub const ASCII_DEL_CHAR: u8 = 127;

/// ASCII horizontal tab.
pub const ASCII_TAB: u8 = 9;

/// ASCII space.
pub const ASCII_SPACE: u8 = 32;

/// ASCII colon, the name/value separator.
pub const ASCII_COLON: u8 = 58;

/// True for the protocol separator characters
/// `( ) < > @ , ; : \ " / [ ] ? = { }` together with space and tab.
pub open spec fn spec_is_separator(byte: u8) -> bool {
    ||| byte == 40  // (
    ||| byte == 41  // )
    ||| byte == 60  // <
    ||| byte == 62  // >
    ||| byte == 64  // @
    ||| byte == 44  // ,
    ||| byte == 59  // ;
    ||| byte == 58  // :
    ||| byte == 92  // backslash
    ||| byte == 34  // double quote
    ||| byte == 47  // /
    ||| byte == 91  // [
    ||| byte == 93  // ]
    ||| byte == 63  // ?
    ||| byte == 61  // =
    ||| byte == 123  // {
    ||| byte == 125  // }
    ||| byte == ASCII_SPACE
    ||| byte == ASCII_TAB
}

/// True for a token character: printable ASCII, excluding the control range,
/// delete, anything beyond ASCII, and the protocol separators.
pub open spec fn spec_is_token(byte: u8) -> bool {
    &&& byte > ASCII_CONTROL_UPPER_BOUND
    &&& byte < ASCII_DEL_CHAR
    &&& !spec_is_separator(byte)
}

/// True for horizontal whitespace: space or tab.
pub open spec fn spec_is_whitespace(byte: u8) -> bool {
    byte == ASCII_SPACE || byte == ASCII_TAB
}

/// True for a control character: the ASCII control range or delete.
pub open spec fn spec_is_control(byte: u8) -> bool {
    byte <= ASCII_CONTROL_UPPER_BOUND || byte == ASCII_DEL_CHAR
}

/// Decides whether a byte is a token character, permitted in header names.
pub fn is_token(byte: u8) -> (r: bool)
    ensures
        r == spec_is_token(byte),
{
    if byte <= ASCII_CONTROL_UPPER_BOUND || byte >= ASCII_DEL_CHAR {
        return false;
    }
    match byte {
        40 | 41 | 60 | 62 | 64 | 44 | 59 | 58 | 92 | 34 | 47 | 91 | 93 | 63 | 61 | 123 | 125
            | ASCII_SPACE | ASCII_TAB => false,
        _ => true,
    }
}

/// Decides whether a byte is horizontal whitespace.
pub fn is_whitespace(byte: u8) -> (r: bool)
    ensures
        r == spec_is_whitespace(byte),
{
    byte == ASCII_SPACE || byte == ASCII_TAB
}

/// Decides whether a byte is a control character.
pub fn is_control(byte: u8) -> (r: bool)
    ensures
        r == spec_is_control(byte),
{
    byte <= ASCII_CONTROL_UPPER_BOUND || byte == ASCII_DEL_CHAR
}

} // verus!
