//! Short strings that describe a byte in a diagnostic.

use vstd::prelude::*;

verus! {

/// The character with the same code point as the byte.
pub open spec fn byte_char(b: u8) -> char {
    b as char
}

/// The byte shown as the one character with its code point.
pub open spec fn as_character(b: u8) -> Seq<char> {
    seq![byte_char(b)]
}

/// The character for a decimal digit value below ten.
pub open spec fn digit_char(d: u8) -> char {
    byte_char((0x30 + d) as u8)
}

/// The byte shown as a decimal number, without leading zeros.
pub open spec fn as_decimal(b: u8) -> Seq<char> {
    if b >= 100 {
        seq![digit_char(b / 100), digit_char((b / 10) % 10), digit_char(b % 10)]
    } else if b >= 10 {
        seq![digit_char(b / 10), digit_char(b % 10)]
    } else {
        seq![digit_char(b)]
    }
}

/// `String::push` appends the given character to the end of the string and
/// leaves what was there before in place.
#[verifier::external_body]
fn push_char(s: &mut String, c: char)
    ensures
        final(s)@ == old(s)@.push(c),
{
    s.push(c);
}

/// A string that holds the byte as one character.
pub fn character_string(b: u8) -> (s: String)
    ensures
        s@ == as_character(b),
{
    let mut s = String::new();
    push_char(&mut s, b as char);
    s
}

/// A string that holds the byte as a decimal number.
pub fn decimal_string(b: u8) -> (s: String)
    ensures
        s@ == as_decimal(b),
{
    let mut s = String::new();
    if b >= 100 {
        push_char(&mut s, (0x30 + b / 100) as char);
    }
    if b >= 10 {
        push_char(&mut s, (0x30 + (b / 10) % 10) as char);
    }
    push_char(&mut s, (0x30 + b % 10) as char);
    s
}

} // verus!
