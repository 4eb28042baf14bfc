//! Why an identifier could not be decoded.

use vstd::prelude::*;

verus! {

/// What is wrong with the text of an identifier.
#[derive(Clone, Copy, Debug, PartialEq, Eq)]
pub enum IdentifierFault {
    /// The text, without its prefix, is not an even number of hexadecimal
    /// digits.
    NotHex,
    /// The text stands for fewer bytes than an identifier has fields.
    TooShort,
}

/// The two ways in which decoding fails.
#[derive(Clone, Copy, Debug, PartialEq, Eq)]
pub enum ParseError {
    /// The identifier's text does not give the bytes of an identifier.
    MalformedIdentifier(IdentifierFault),
    /// The catalog has no design at the identifier's index.
    DesignIndexOutOfBounds { index: usize },
}

} // verus!
