//! From the text of an identifier to its fields.

use vstd::prelude::*;
use crate::error::{IdentifierFault, ParseError};
use crate::hexcode::{decode_hex, hex_bytes, is_hex_text};

verus! {

/// The number of bytes that the fields of an identifier take.
pub const MIN_IDENTIFIER_BYTES: usize = 5;

/// The selector value from which on the palette is inverted; the design
/// index is the selector's remainder by it.
pub const INVERT_THRESHOLD: u8 = 128;

/// The text without a leading `0x`, if it has one.
pub open spec fn spec_strip_prefix(t: Seq<char>) -> Seq<char> {
    if t.len() >= 2 && t[0] == '0' && t[1] == 'x' {
        t.subrange(2, t.len() as int)
    } else {
        t
    }
}

/// The bytes of an identifier's text, where it has any: the text is
/// hexadecimal once a leading `0x` is taken off.
pub open spec fn spec_identifier_bytes(t: Seq<char>) -> Option<Seq<u8>> {
    if is_hex_text(spec_strip_prefix(t)) {
        Some(hex_bytes(spec_strip_prefix(t)))
    } else {
        None
    }
}

/// The fields of an identifier.
#[derive(Clone, Copy, Debug, PartialEq, Eq)]
pub struct Fields {
    /// Whether the identifier is of the special variant, with a fixed
    /// palette.
    pub flag: bool,
    /// The byte that picks the design and the inversion.
    pub selector: u8,
    /// Whether the palette is inverted.
    pub invert: bool,
    /// The index of the design in the catalog.
    pub selector_normalized: usize,
    /// The seed color's red channel.
    pub r: u8,
    /// The seed color's green channel.
    pub g: u8,
    /// The seed color's blue channel.
    pub b: u8,
}

/// The fields that the first five bytes of an identifier hold.
pub open spec fn spec_fields(bytes: Seq<u8>) -> Fields
    recommends
        bytes.len() >= MIN_IDENTIFIER_BYTES,
{
    Fields {
        flag: bytes[0] != 0,
        selector: bytes[1],
        invert: bytes[1] >= INVERT_THRESHOLD,
        selector_normalized: (bytes[1] % INVERT_THRESHOLD) as usize,
        r: bytes[2],
        g: bytes[3],
        b: bytes[4],
    }
}

/// What reading an identifier's text gives: its fields, or the fault in
/// the text.
pub open spec fn spec_parse_identifier(t: Seq<char>) -> Result<Fields, ParseError> {
    match spec_identifier_bytes(t) {
        None => Err(ParseError::MalformedIdentifier(IdentifierFault::NotHex)),
        Some(bytes) => if bytes.len() < MIN_IDENTIFIER_BYTES {
            Err(ParseError::MalformedIdentifier(IdentifierFault::TooShort))
        } else {
            Ok(spec_fields(bytes))
        },
    }
}

/// Takes a leading `0x` off a text.
pub fn strip_hex_prefix(text: &str) -> (rest: &str)
    ensures
        rest@ == spec_strip_prefix(text@),
{
    let len: usize = text.unicode_len();
    if len >= 2 && text.get_char(0) == '0' && text.get_char(1) == 'x' {
        text.substring_char(2, len)
    } else {
        text
    }
}

/// Reads the fields off the bytes of an identifier. Bytes after the fifth
/// are ignored.
pub fn extract_fields(bytes: &[u8]) -> (fields: Result<Fields, ParseError>)
    ensures
        bytes@.len() >= MIN_IDENTIFIER_BYTES ==> fields == Ok::<Fields, ParseError>(
            spec_fields(bytes@),
        ),
        bytes@.len() < MIN_IDENTIFIER_BYTES ==> fields == Err::<Fields, ParseError>(
            ParseError::MalformedIdentifier(IdentifierFault::TooShort),
        ),
{
    if bytes.len() < MIN_IDENTIFIER_BYTES {
        return Err(ParseError::MalformedIdentifier(IdentifierFault::TooShort));
    }
    let selector: u8 = bytes[1];
    Ok(
        Fields {
            flag: bytes[0] != 0,
            selector,
            invert: selector >= INVERT_THRESHOLD,
            selector_normalized: (selector % INVERT_THRESHOLD) as usize,
            r: bytes[2],
            g: bytes[3],
            b: bytes[4],
        },
    )
}

/// Reads an identifier's text: takes off a leading `0x`, decodes the
/// hexadecimal digits and reads the fields off the bytes.
pub fn parse_identifier(cat_id: &str) -> (fields: Result<Fields, ParseError>)
    ensures
        fields == spec_parse_identifier(cat_id@),
{
    let digits = strip_hex_prefix(cat_id);
    match decode_hex(digits) {
        Ok(bytes) => extract_fields(bytes.as_slice()),
        Err(_) => Err(ParseError::MalformedIdentifier(IdentifierFault::NotHex)),
    }
}

} // verus!
