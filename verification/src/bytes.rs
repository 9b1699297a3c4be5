//! Classification of raw bytes.
//!
//! Only the ASCII subset carries structure. Every other byte value is opaque
//! and belongs to the text around the directives.

use vstd::prelude::*;

verus! {

/// `[`, which opens an inline directive.
pub const INLINE_OPEN: u8 = 0x5b;

/// `]`, which no rule consumes.
pub const INLINE_CLOSE: u8 = 0x5d;

/// `{`, which opens a block directive.
pub const BLOCK_OPEN: u8 = 0x7b;

/// `}`, which no rule consumes.
pub const BLOCK_CLOSE: u8 = 0x7d;

/// `|`, which ends the head of a block directive.
pub const PIPE: u8 = 0x7c;

/// ASCII whitespace: space, horizontal tab, line feed, form feed and carriage
/// return.
pub open spec fn is_whitespace(b: u8) -> bool {
    b == 0x20 || b == 0x09 || b == 0x0a || b == 0x0c || b == 0x0d
}

/// An ASCII letter: `A` to `Z` or `a` to `z`.
pub open spec fn is_alphabetic(b: u8) -> bool {
    (0x41 <= b <= 0x5a) || (0x61 <= b <= 0x7a)
}

/// An ASCII decimal digit: `0` to `9`.
pub open spec fn is_digit(b: u8) -> bool {
    0x30 <= b <= 0x39
}

/// An ASCII letter or decimal digit.
pub open spec fn is_alphanumeric(b: u8) -> bool {
    is_alphabetic(b) || is_digit(b)
}

/// One of the four bracket bytes that the document rule reacts to.
pub open spec fn is_structural(b: u8) -> bool {
    b == INLINE_OPEN || b == BLOCK_OPEN || b == INLINE_CLOSE || b == BLOCK_CLOSE
}

/// Whether the byte is ASCII whitespace.
pub fn byte_is_whitespace(b: u8) -> (yes: bool)
    ensures
        yes == is_whitespace(b),
{
    b == 0x20 || b == 0x09 || b == 0x0a || b == 0x0c || b == 0x0d
}

/// Whether the byte is an ASCII letter.
pub fn byte_is_alphabetic(b: u8) -> (yes: bool)
    ensures
        yes == is_alphabetic(b),
{
    (0x41 <= b && b <= 0x5a) || (0x61 <= b && b <= 0x7a)
}

/// Whether the byte is an ASCII letter or decimal digit.
pub fn byte_is_alphanumeric(b: u8) -> (yes: bool)
    ensures
        yes == is_alphanumeric(b),
{
    byte_is_alphabetic(b) || (0x30 <= b && b <= 0x39)
}

} // verus!
