//! Colors as `#rrggbb` strings.

use vstd::prelude::*;

verus! {

/// The sixteen lowercase hexadecimal digits, in order of value.
pub open spec fn hex_digits() -> Seq<char> {
    seq!['0', '1', '2', '3', '4', '5', '6', '7', '8', '9', 'a', 'b', 'c', 'd', 'e', 'f']
}

/// The lowercase hexadecimal digit that stands for `n`, for `0 <= n < 16`.
pub open spec fn hex_digit(n: int) -> char
    recommends
        0 <= n < 16,
{
    hex_digits()[n]
}

/// Whether `c` is one of `0`-`9` or `a`-`f`.
pub open spec fn is_lower_hex_digit(c: char) -> bool {
    ('0' <= c && c <= '9') || ('a' <= c && c <= 'f')
}

/// The text of a color: `#`, then two digits for each of red, green and
/// blue, high nibble first.
pub open spec fn hex_color(r: u8, g: u8, b: u8) -> Seq<char> {
    seq![
        '#',
        hex_digit(r as int / 16),
        hex_digit(r as int % 16),
        hex_digit(g as int / 16),
        hex_digit(g as int % 16),
        hex_digit(b as int / 16),
        hex_digit(b as int % 16),
    ]
}

/// One hexadecimal digit as a string of length one.
fn hex_digit_str(n: u8) -> (s: &'static str)
    requires
        n < 16,
    ensures
        s@ == seq![hex_digit(n as int)],
{
    proof {
        reveal_strlit("0");
        reveal_strlit("1");
        reveal_strlit("2");
        reveal_strlit("3");
        reveal_strlit("4");
        reveal_strlit("5");
        reveal_strlit("6");
        reveal_strlit("7");
        reveal_strlit("8");
        reveal_strlit("9");
        reveal_strlit("a");
        reveal_strlit("b");
        reveal_strlit("c");
        reveal_strlit("d");
        reveal_strlit("e");
        reveal_strlit("f");
    }
    let s: &'static str = match n {
        0 => "0",
        1 => "1",
        2 => "2",
        3 => "3",
        4 => "4",
        5 => "5",
        6 => "6",
        7 => "7",
        8 => "8",
        9 => "9",
        10 => "a",
        11 => "b",
        12 => "c",
        13 => "d",
        14 => "e",
        _ => "f",
    };
    assert(s@ =~= seq![hex_digit(n as int)]);
    s
}

/// Writes a color as `#rrggbb` in lowercase hexadecimal, each channel
/// padded to two digits.
pub fn rgb_to_hex(r: u8, g: u8, b: u8) -> (s: String)
    ensures
        s@ == hex_color(r, g, b),
{
    proof {
        reveal_strlit("#");
    }
    let mut s: String = String::from_str("#");
    s.append(hex_digit_str(r / 16));
    s.append(hex_digit_str(r % 16));
    s.append(hex_digit_str(g / 16));
    s.append(hex_digit_str(g % 16));
    s.append(hex_digit_str(b / 16));
    s.append(hex_digit_str(b % 16));
    assert(s@ =~= hex_color(r, g, b));
    s
}

/// Whether a text is `#` followed by exactly six lowercase hexadecimal
/// digits.
pub open spec fn is_color_text(t: Seq<char>) -> bool {
    &&& t.len() == 7
    &&& t[0] == '#'
    &&& forall|i: int| 1 <= i < 7 ==> is_lower_hex_digit(#[trigger] t[i])
}

/// Every value below sixteen has a lowercase hexadecimal digit.
pub proof fn lemma_hex_digit_is_digit(n: int)
    requires
        0 <= n < 16,
    ensures
        is_lower_hex_digit(hex_digit(n)),
{
}

/// A color's text is `#` followed by exactly six lowercase hexadecimal
/// digits, whatever the three channels are: a channel below sixteen is
/// written with a leading `0`.
pub proof fn lemma_hex_color_shape(r: u8, g: u8, b: u8)
    ensures
        is_color_text(hex_color(r, g, b)),
{
    lemma_hex_digit_is_digit(r as int / 16);
    lemma_hex_digit_is_digit(r as int % 16);
    lemma_hex_digit_is_digit(g as int / 16);
    lemma_hex_digit_is_digit(g as int % 16);
    lemma_hex_digit_is_digit(b as int / 16);
    lemma_hex_digit_is_digit(b as int % 16);
}

} // verus!
