//! The six-slot palettes: two fixed ones for the special variant, and one
//! derived from a seed color for every other identifier.

use vstd::prelude::*;
use crate::color::{hex_color, is_color_text, lemma_hex_color_shape, rgb_to_hex};
use crate::hsl::{hsl_to_rgb, rgb_to_hsl, spec_hsl_to_rgb, spec_hue, Hsl, Ratio};

verus! {

/// A palette in contracts: each slot is no color or a color's text.
pub type PaletteView = Seq<Option<Seq<char>>>;

/// The number of slots of a palette.
pub const PALETTE_SLOTS: usize = 6;

/// How far the accent hue lies from the base hue, in degrees.
pub const ACCENT_SHIFT: u32 = 320;

/// The largest denominator of a hue that can still be shifted.
pub const MAX_SHIFT_DEN: u32 = 0x00ff_ffff;

/// A palette has six slots, and the first one holds no color.
pub open spec fn is_palette(p: PaletteView) -> bool {
    p.len() == PALETTE_SLOTS && p[0] is None
}

/// The hue `ACCENT_SHIFT` degrees further round the circle.
pub open spec fn spec_shift_hue(h: Ratio) -> Ratio {
    Ratio { num: ((h.num + ACCENT_SHIFT * h.den) % (360 * h.den)) as u32, den: h.den }
}

/// Moves a hue `ACCENT_SHIFT` degrees further round the circle.
pub fn shift_hue(h: Ratio) -> (shifted: Ratio)
    requires
        h.is_hue(),
        h.den <= MAX_SHIFT_DEN,
    ensures
        shifted == spec_shift_hue(h),
        shifted.is_hue(),
{
    let num: u64 = (h.num as u64 + ACCENT_SHIFT as u64 * h.den as u64) % (360 * h.den as u64);
    Ratio { num: num as u32, den: h.den }
}

/// The color of full saturation with the given hue and a lightness of
/// `percent` hundredths.
pub open spec fn tone_hsl(hue: Ratio, percent: u32) -> Hsl {
    Hsl {
        hue,
        saturation: Ratio { num: 1, den: 1 },
        lightness: Ratio { num: percent, den: 100 },
    }
}

/// The text of the color `tone_hsl(hue, percent)`.
pub open spec fn tone(hue: Ratio, percent: u32) -> Seq<char> {
    let rgb = spec_hsl_to_rgb(tone_hsl(hue, percent));
    hex_color(rgb.0, rgb.1, rgb.2)
}

/// Computes the text of a fully saturated color from its hue and its
/// lightness in hundredths.
fn tone_hex(hue: Ratio, percent: u32) -> (s: String)
    requires
        hue.is_hue(),
        percent <= 100,
    ensures
        s@ == tone(hue, percent),
{
    let rgb = hsl_to_rgb(
        Hsl {
            hue,
            saturation: Ratio { num: 1, den: 1 },
            lightness: Ratio { num: percent, den: 100 },
        },
    );
    rgb_to_hex(rgb.0, rgb.1, rgb.2)
}

/// The palette derived from the seed color `(r, g, b)`.
///
/// Slot 1 is the seed's hue at lightness 0.10. Slots 2 to 4 hold that hue
/// at 0.20, 0.45 and 0.70, in this order for a plain palette and in the
/// opposite order for an inverted one. Slot 5 is the accent hue at 0.80 in
/// both.
pub open spec fn spec_derive_palette(r: u8, g: u8, b: u8, invert: bool) -> PaletteView {
    let base = spec_hue(r, g, b);
    let accent = spec_shift_hue(base);
    if invert {
        seq![
            None,
            Some(tone(base, 10)),
            Some(tone(base, 70)),
            Some(tone(base, 45)),
            Some(tone(base, 20)),
            Some(tone(accent, 80)),
        ]
    } else {
        seq![
            None,
            Some(tone(base, 10)),
            Some(tone(base, 20)),
            Some(tone(base, 45)),
            Some(tone(base, 70)),
            Some(tone(accent, 80)),
        ]
    }
}

/// Derives the palette of an ordinary identifier from its seed color.
pub fn derive_palette(r: u8, g: u8, b: u8, invert: bool) -> (palette: Vec<Option<String>>)
    ensures
        palette.deep_view() == spec_derive_palette(r, g, b, invert),
        is_palette(palette.deep_view()),
{
    let base = rgb_to_hsl(r, g, b).hue;
    let accent = shift_hue(base);
    let darkest = tone_hex(base, 10);
    let dark = tone_hex(base, 20);
    let middle = tone_hex(base, 45);
    let light = tone_hex(base, 70);
    let highlight = tone_hex(accent, 80);

    let mut palette: Vec<Option<String>> = Vec::new();
    palette.push(None);
    palette.push(Some(darkest));
    if invert {
        palette.push(Some(light));
        palette.push(Some(middle));
        palette.push(Some(dark));
    } else {
        palette.push(Some(dark));
        palette.push(Some(middle));
        palette.push(Some(light));
    }
    palette.push(Some(highlight));
    assert(palette.deep_view() =~= spec_derive_palette(r, g, b, invert));
    palette
}

/// One of the two fixed palettes of the special variant. Both share
/// slot 1 and the accent in slot 5; slots 2 to 4 hold light grays in
/// one and dark grays in the other.
pub open spec fn special_palette(light: bool) -> PaletteView {
    if light {
        seq![
            None,
            Some("#555555"@),
            Some("#d3d3d3"@),
            Some("#ffffff"@),
            Some("#aaaaaa"@),
            Some("#ff9999"@),
        ]
    } else {
        seq![
            None,
            Some("#555555"@),
            Some("#222222"@),
            Some("#111111"@),
            Some("#bbbbbb"@),
            Some("#ff9999"@),
        ]
    }
}

/// Which fixed palette a special identifier gets: the light one when the
/// selector is odd and the palette is not inverted, or the selector is
/// even and the palette is inverted.
pub open spec fn special_is_light(selector: u8, invert: bool) -> bool {
    (selector % 2 != 0) != invert
}

/// Builds one of the two fixed palettes.
pub fn special_palette_of(light: bool) -> (palette: Vec<Option<String>>)
    ensures
        palette.deep_view() == special_palette(light),
        is_palette(palette.deep_view()),
{
    let mut palette: Vec<Option<String>> = Vec::new();
    palette.push(None);
    palette.push(Some(String::from_str("#555555")));
    if light {
        palette.push(Some(String::from_str("#d3d3d3")));
        palette.push(Some(String::from_str("#ffffff")));
        palette.push(Some(String::from_str("#aaaaaa")));
    } else {
        palette.push(Some(String::from_str("#222222")));
        palette.push(Some(String::from_str("#111111")));
        palette.push(Some(String::from_str("#bbbbbb")));
    }
    palette.push(Some(String::from_str("#ff9999")));
    assert(palette.deep_view() =~= special_palette(light));
    palette
}

/// The palette of an identifier: a fixed one for the special variant,
/// chosen by the selector's parity and the inversion alone, and otherwise
/// the one derived from the seed color.
pub open spec fn spec_select_palette(
    flag: bool,
    selector: u8,
    invert: bool,
    r: u8,
    g: u8,
    b: u8,
) -> PaletteView {
    if flag {
        special_palette(special_is_light(selector, invert))
    } else {
        spec_derive_palette(r, g, b, invert)
    }
}

/// Chooses the palette of an identifier from its fields.
pub fn select_palette(flag: bool, selector: u8, invert: bool, r: u8, g: u8, b: u8) -> (palette:
    Vec<Option<String>>)
    ensures
        palette.deep_view() == spec_select_palette(flag, selector, invert, r, g, b),
        is_palette(palette.deep_view()),
{
    if flag {
        special_palette_of((selector % 2 != 0) != invert)
    } else {
        derive_palette(r, g, b, invert)
    }
}

/// Every palette has six slots, and its first slot holds no color.
pub proof fn lemma_first_slot_is_empty(
    flag: bool,
    selector: u8,
    invert: bool,
    r: u8,
    g: u8,
    b: u8,
)
    ensures
        is_palette(spec_select_palette(flag, selector, invert, r, g, b)),
{
}

/// The palette of a special identifier depends on the selector's parity
/// and on the inversion only: the seed color plays no part, selectors of
/// the same parity give the same palette, and each of the four cases gives
/// one of the two fixed palettes.
pub proof fn lemma_special_palette_by_parity(
    selector: u8,
    other: u8,
    invert: bool,
    r: u8,
    g: u8,
    b: u8,
    r2: u8,
    g2: u8,
    b2: u8,
)
    requires
        selector % 2 == other % 2,
    ensures
        spec_select_palette(true, selector, invert, r, g, b) == spec_select_palette(
            true,
            other,
            invert,
            r2,
            g2,
            b2,
        ),
        selector % 2 == 1 && !invert ==> spec_select_palette(true, selector, invert, r, g, b)
            == special_palette(true),
        selector % 2 == 0 && invert ==> spec_select_palette(true, selector, invert, r, g, b)
            == special_palette(true),
        selector % 2 == 1 && invert ==> spec_select_palette(true, selector, invert, r, g, b)
            == special_palette(false),
        selector % 2 == 0 && !invert ==> spec_select_palette(true, selector, invert, r, g, b)
            == special_palette(false),
{
}

/// Inverting a derived palette rearranges it and adds nothing: slots 2
/// and 4 change places, every other slot stays, and so both palettes hold
/// the same colors the same number of times.
pub proof fn lemma_invert_permutes(r: u8, g: u8, b: u8)
    ensures
        spec_derive_palette(r, g, b, true) == spec_derive_palette(r, g, b, false).update(
            2,
            spec_derive_palette(r, g, b, false)[4],
        ).update(4, spec_derive_palette(r, g, b, false)[2]),
        spec_derive_palette(r, g, b, true).to_multiset() == spec_derive_palette(
            r,
            g,
            b,
            false,
        ).to_multiset(),
{
    let plain = spec_derive_palette(r, g, b, false);
    let inverted = spec_derive_palette(r, g, b, true);
    assert(inverted =~= plain.update(2, plain[4]).update(4, plain[2]));
    let head = seq![plain[0], plain[1]];
    assert(plain =~= head.push(plain[2]).push(plain[3]).push(plain[4]).push(plain[5]));
    assert(inverted =~= head.push(plain[4]).push(plain[3]).push(plain[2]).push(plain[5]));
    assert(inverted.to_multiset() =~= plain.to_multiset()) by {
        broadcast use vstd::seq_lib::to_multiset_build;

    }
}

/// Every color of a derived palette is `#` followed by exactly six
/// lowercase hexadecimal digits, each channel padded to two of them.
pub proof fn lemma_derived_colors_are_hex(r: u8, g: u8, b: u8, invert: bool)
    ensures
        forall|slot: int|
            1 <= slot < 6 ==> {
                let c = #[trigger] spec_derive_palette(r, g, b, invert)[slot];
                c is Some && is_color_text(c->0)
            },
{
    let base = spec_hue(r, g, b);
    let accent = spec_shift_hue(base);
    lemma_tone_is_hex(base, 10);
    lemma_tone_is_hex(base, 20);
    lemma_tone_is_hex(base, 45);
    lemma_tone_is_hex(base, 70);
    lemma_tone_is_hex(accent, 80);
}

/// Every slot of every palette but the first holds a color, written as
/// `#` and six lowercase hexadecimal digits.
pub proof fn lemma_palette_colors_are_hex(
    flag: bool,
    selector: u8,
    invert: bool,
    r: u8,
    g: u8,
    b: u8,
)
    ensures
        forall|slot: int|
            1 <= slot < 6 ==> {
                let c = #[trigger] spec_select_palette(flag, selector, invert, r, g, b)[slot];
                c is Some && is_color_text(c->0)
            },
{
    if flag {
        reveal_strlit("#555555");
        reveal_strlit("#d3d3d3");
        reveal_strlit("#ffffff");
        reveal_strlit("#aaaaaa");
        reveal_strlit("#222222");
        reveal_strlit("#111111");
        reveal_strlit("#bbbbbb");
        reveal_strlit("#ff9999");
    } else {
        lemma_derived_colors_are_hex(r, g, b, invert);
    }
}

/// The text of a tone is `#` followed by six lowercase hexadecimal digits.
pub proof fn lemma_tone_is_hex(hue: Ratio, percent: u32)
    ensures
        is_color_text(tone(hue, percent)),
{
    let rgb = spec_hsl_to_rgb(tone_hsl(hue, percent));
    lemma_hex_color_shape(rgb.0, rgb.1, rgb.2);
}

} // verus!
