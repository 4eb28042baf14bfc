//! From a grid of optional colors to a rectangle of pixels.

use vstd::prelude::*;
use crate::color::hex_color;
use crate::grid::GridView;
use crate::hexcode::{decode_hex_to_slice, hex_bytes, is_hex_text, lemma_hex_digit_value};

verus! {

/// One pixel: red, green, blue and opacity.
#[derive(Clone, Copy, Debug, PartialEq, Eq)]
pub struct Pixel {
    pub r: u8,
    pub g: u8,
    pub b: u8,
    pub a: u8,
}

/// A rectangle of pixels, row by row from the top.
#[derive(Debug, PartialEq, Eq)]
pub struct Bitmap {
    pub width: usize,
    pub height: usize,
    pub rows: Vec<Vec<Pixel>>,
}

impl Bitmap {
    /// There are `height` rows of `width` pixels each, and at least one
    /// pixel.
    pub open spec fn wf(self) -> bool {
        &&& self.width > 0
        &&& self.height > 0
        &&& self.rows@.len() == self.height
        &&& forall|y: int| 0 <= y < self.height ==> (#[trigger] self.rows@[y])@.len() == self.width
    }
}

/// The pixel of a cell without color: nothing of any channel, and fully
/// transparent.
pub open spec fn transparent() -> Pixel {
    Pixel { r: 0, g: 0, b: 0, a: 0 }
}

/// A color's text without a leading `#`, if it has one.
pub open spec fn spec_strip_hash(t: Seq<char>) -> Seq<char> {
    if t.len() >= 1 && t[0] == '#' {
        t.subrange(1, t.len() as int)
    } else {
        t
    }
}

/// The channels that a color's text stands for: after an optional `#`,
/// exactly three pairs of hexadecimal digits.
pub open spec fn spec_parse_hex_color(t: Seq<char>) -> Option<(u8, u8, u8)> {
    let digits = spec_strip_hash(t);
    if digits.len() == 6 && is_hex_text(digits) {
        Some((hex_bytes(digits)[0], hex_bytes(digits)[1], hex_bytes(digits)[2]))
    } else {
        None
    }
}

/// The pixel of a cell: transparent for no color, opaque in the color
/// that the text stands for, and opaque black for a text that stands for
/// none.
pub open spec fn spec_cell_pixel(cell: Option<Seq<char>>) -> Pixel {
    match cell {
        None => transparent(),
        Some(text) => match spec_parse_hex_color(text) {
            Some(rgb) => Pixel { r: rgb.0, g: rgb.1, b: rgb.2, a: 255 },
            None => Pixel { r: 0, g: 0, b: 0, a: 255 },
        },
    }
}

/// The pixel at column `x` of row `y`: the cell's pixel, and a transparent
/// one where the row has no cell in that column.
pub open spec fn spec_pixel_at(grid: GridView, x: int, y: int) -> Pixel {
    if 0 <= x < grid[y].len() {
        spec_cell_pixel(grid[y][x])
    } else {
        transparent()
    }
}

/// Takes a leading `#` off a color's text.
pub fn strip_hash(text: &str) -> (rest: &str)
    ensures
        rest@ == spec_strip_hash(text@),
{
    let len: usize = text.unicode_len();
    if len >= 1 && text.get_char(0) == '#' {
        text.substring_char(1, len)
    } else {
        text
    }
}

/// Reads the three channels off a color's text, with or without its
/// leading `#`.
pub fn parse_hex_color(text: &str) -> (rgb: Option<(u8, u8, u8)>)
    ensures
        rgb == spec_parse_hex_color(text@),
{
    let digits = strip_hash(text);
    let mut channels: Vec<u8> = Vec::new();
    channels.push(0);
    channels.push(0);
    channels.push(0);
    match decode_hex_to_slice(digits, &mut channels) {
        Ok(_) => Some((channels[0], channels[1], channels[2])),
        Err(_) => None,
    }
}

/// The pixel that stands for one cell of a grid.
pub fn cell_pixel(cell: &Option<String>) -> (pixel: Pixel)
    ensures
        pixel == spec_cell_pixel(cell.deep_view()),
{
    match cell {
        None => Pixel { r: 0, g: 0, b: 0, a: 0 },
        Some(text) => match parse_hex_color(text.as_str()) {
            Some(rgb) => Pixel { r: rgb.0, g: rgb.1, b: rgb.2, a: 255 },
            None => Pixel { r: 0, g: 0, b: 0, a: 255 },
        },
    }
}

/// Turns a grid into pixels, one for each cell.
///
/// The first row sets the width. A shorter row is filled up with
/// transparent pixels, and of a longer row the cells past the width are
/// left out. A grid without rows, or with an empty first row, has no
/// picture.
pub fn rasterize(grid: &Vec<Vec<Option<String>>>) -> (bitmap: Option<Bitmap>)
    ensures
        bitmap is None <==> (grid@.len() == 0 || grid@[0]@.len() == 0),
        bitmap matches Some(bm) ==> {
            &&& bm.wf()
            &&& bm.height == grid@.len()
            &&& bm.width == grid@[0]@.len()
            &&& forall|x: int, y: int|
                0 <= y < bm.height && 0 <= x < bm.width ==> (#[trigger] bm.rows@[y]@[x])
                    == spec_pixel_at(grid.deep_view(), x, y)
        },
{
    let height: usize = grid.len();
    if height == 0 {
        return None;
    }
    let width: usize = grid[0].len();
    if width == 0 {
        return None;
    }
    let mut rows: Vec<Vec<Pixel>> = Vec::new();
    let mut y: usize = 0;
    while y < height
        invariant
            height == grid@.len(),
            0 <= y <= height,
            rows@.len() == y,
            forall|j: int| 0 <= j < y ==> (#[trigger] rows@[j])@.len() == width,
            forall|i: int, j: int|
                0 <= j < y && 0 <= i < width ==> (#[trigger] rows@[j]@[i]) == spec_pixel_at(
                    grid.deep_view(),
                    i,
                    j,
                ),
        decreases height - y,
    {
        let cells = &grid[y];
        let mut row: Vec<Pixel> = Vec::new();
        let mut x: usize = 0;
        while x < width
            invariant
                0 <= x <= width,
                0 <= y < grid@.len(),
                cells == grid@[y as int],
                row@.len() == x,
                forall|i: int|
                    0 <= i < x ==> (#[trigger] row@[i]) == spec_pixel_at(
                        grid.deep_view(),
                        i,
                        y as int,
                    ),
            decreases width - x,
        {
            let pixel = if x < cells.len() {
                cell_pixel(&cells[x])
            } else {
                Pixel { r: 0, g: 0, b: 0, a: 0 }
            };
            assert(grid.deep_view()[y as int] == cells.deep_view());
            assert(x < cells@.len() ==> cells.deep_view()[x as int] == cells@[x as int].deep_view());
            row.push(pixel);
            x = x + 1;
        }
        rows.push(row);
        y = y + 1;
    }
    Some(Bitmap { width, height, rows })
}

/// Reading a color's text gives back the channels it was written from.
pub proof fn lemma_color_text_round_trip(r: u8, g: u8, b: u8)
    ensures
        spec_parse_hex_color(hex_color(r, g, b)) == Some((r, g, b)),
        spec_cell_pixel(Some(hex_color(r, g, b))) == (Pixel { r, g, b, a: 255 }),
{
    let text = hex_color(r, g, b);
    let digits = spec_strip_hash(text);
    assert(digits =~= text.subrange(1, 7));
    lemma_hex_digit_value(r as int / 16);
    lemma_hex_digit_value(r as int % 16);
    lemma_hex_digit_value(g as int / 16);
    lemma_hex_digit_value(g as int % 16);
    lemma_hex_digit_value(b as int / 16);
    lemma_hex_digit_value(b as int % 16);
    assert(is_hex_text(digits));
    assert(hex_bytes(digits)[0] == r);
    assert(hex_bytes(digits)[1] == g);
    assert(hex_bytes(digits)[2] == b);
}

} // verus!
