//! Hexadecimal text and the bytes it stands for. The decoding itself is
//! done by the `hex` crate; what this library takes from it on trust is
//! stated here.

use vstd::prelude::*;
use crate::color::hex_digit;

verus! {

/// The error of the `hex` crate's decoders, `hex::FromHexError`. It is
/// carried through and never looked into.
#[verifier::external_type_specification]
#[verifier::external_body]
pub struct ExFromHexError(hex::FromHexError);

/// Whether `c` is a hexadecimal digit, in either case.
pub open spec fn is_hex_char(c: char) -> bool {
    ('0' <= c && c <= '9') || ('a' <= c && c <= 'f') || ('A' <= c && c <= 'F')
}

/// The value of a hexadecimal digit.
pub open spec fn hex_value(c: char) -> int {
    if '0' <= c && c <= '9' {
        c as int - '0' as int
    } else if 'a' <= c && c <= 'f' {
        c as int - 'a' as int + 10
    } else {
        c as int - 'A' as int + 10
    }
}

/// Whether a text is made of pairs of hexadecimal digits and nothing else.
pub open spec fn is_hex_text(t: Seq<char>) -> bool {
    t.len() % 2 == 0 && forall|i: int| 0 <= i < t.len() ==> is_hex_char(#[trigger] t[i])
}

/// The bytes that a text of hexadecimal digits stands for: one for each
/// pair of digits, the first digit of a pair being the high half.
pub open spec fn hex_bytes(t: Seq<char>) -> Seq<u8> {
    Seq::new(t.len() / 2, |i: int| (16 * hex_value(t[2 * i]) + hex_value(t[2 * i + 1])) as u8)
}

/// Decodes hexadecimal text with `hex::decode`.
///
/// Taken on trust from that function: it succeeds exactly on texts made
/// of an even number of hexadecimal digits of either case, and then
/// returns one byte for each pair of digits, the first digit being the
/// high half. A character outside ASCII is never a digit, so counting
/// characters and counting bytes agree on every text that it accepts.
#[verifier::external_body]
pub(crate) fn decode_hex(text: &str) -> (decoded: Result<Vec<u8>, hex::FromHexError>)
    ensures
        decoded is Ok <==> is_hex_text(text@),
        decoded matches Ok(bytes) ==> bytes@ == hex_bytes(text@),
{
    hex::decode(text)
}

/// Decodes hexadecimal text into a buffer with `hex::decode_to_slice`.
///
/// Taken on trust from that function: it succeeds exactly on texts made
/// of hexadecimal digits of either case, two for each byte of the buffer,
/// and then fills the buffer with one byte for each pair of digits, the
/// first digit being the high half. When it fails, the buffer keeps its
/// length and nothing is said of what it holds.
#[verifier::external_body]
pub(crate) fn decode_hex_to_slice(text: &str, out: &mut Vec<u8>) -> (decoded: Result<
    (),
    hex::FromHexError,
>)
    ensures
        decoded is Ok <==> is_hex_text(text@) && text@.len() == 2 * old(out)@.len(),
        decoded is Ok ==> final(out)@ == hex_bytes(text@),
        final(out)@.len() == old(out)@.len(),
{
    hex::decode_to_slice(text, out.as_mut_slice())
}

/// The digit written for a value reads as a hexadecimal digit of that
/// value.
pub proof fn lemma_hex_digit_value(n: int)
    requires
        0 <= n < 16,
    ensures
        is_hex_char(hex_digit(n)),
        hex_value(hex_digit(n)) == n,
{
}

} // verus!
