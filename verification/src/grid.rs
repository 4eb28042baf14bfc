//! From a design template and a palette to a grid of optional colors.

use vstd::prelude::*;
use crate::palette::PaletteView;

verus! {

/// A grid in contracts: rows of cells, each no color or a color's text.
pub type GridView = Seq<Seq<Option<Seq<char>>>>;

/// The character that ends one row of a template and starts the next.
pub const ROW_SEPARATOR: char = '.';

/// The rows of a template: the text between one separator and the next.
/// A template with `n` separators has `n + 1` rows, some of which may be
/// empty.
pub open spec fn split_rows(t: Seq<char>) -> Seq<Seq<char>>
    decreases t.len(),
{
    if t.len() == 0 {
        seq![Seq::<char>::empty()]
    } else {
        let before = split_rows(t.drop_last());
        if t.last() == ROW_SEPARATOR {
            before.push(Seq::<char>::empty())
        } else {
            before.update(before.len() - 1, before.last().push(t.last()))
        }
    }
}

/// The palette slot that a template character names: its value for a
/// decimal digit, and 0 for any other character.
pub open spec fn digit_of(c: char) -> int {
    if '0' <= c && c <= '9' {
        c as int - '0' as int
    } else {
        0
    }
}

/// The color of the cell that a template character stands for: what the
/// palette holds in the slot that the character names, and no color where
/// the palette has no such slot.
pub open spec fn cell(palette: PaletteView, c: char) -> Option<Seq<char>> {
    if digit_of(c) < palette.len() {
        palette[digit_of(c)]
    } else {
        None
    }
}

/// One row of the grid: a cell for each character of the template's row.
pub open spec fn paint_row(palette: PaletteView, row: Seq<char>) -> Seq<Option<Seq<char>>> {
    Seq::new(row.len(), |i: int| cell(palette, row[i]))
}

/// The grid of a template: its rows in order, each painted cell by cell.
pub open spec fn spec_map_template(t: Seq<char>, palette: PaletteView) -> GridView {
    Seq::new(split_rows(t).len(), |i: int| paint_row(palette, split_rows(t)[i]))
}

/// Looks up the color of one cell.
pub fn cell_color(palette: &Vec<Option<String>>, c: char) -> (color: Option<String>)
    ensures
        color.deep_view() == cell(palette.deep_view(), c),
        digit_of(c) == 0 && (palette@.len() > 0 ==> palette@[0] is None) ==> color is None,
{
    let slot: usize = if '0' <= c && c <= '9' {
        (c as u32 - '0' as u32) as usize
    } else {
        0
    };
    if slot < palette.len() {
        match &palette[slot] {
            Some(text) => Some(text.clone()),
            None => None,
        }
    } else {
        None
    }
}

/// Maps a template through a palette: one row for each part of the
/// template between separators, one cell for each character of a row.
pub fn map_template(template: &str, palette: &Vec<Option<String>>) -> (grid: Vec<
    Vec<Option<String>>,
>)
    ensures
        grid.deep_view() == spec_map_template(template@, palette.deep_view()),
{
    let mut grid: Vec<Vec<Option<String>>> = Vec::new();
    let mut row: Vec<Option<String>> = Vec::new();
    for c in it: template.chars()
        invariant
            it.seq() == template@,
            split_rows(template@.take(it.index())).len() == grid.len() + 1,
            forall|j: int|
                0 <= j < grid.len() ==> (#[trigger] grid[j]).deep_view() == paint_row(
                    palette.deep_view(),
                    split_rows(template@.take(it.index()))[j],
                ),
            row.deep_view() == paint_row(
                palette.deep_view(),
                split_rows(template@.take(it.index())).last(),
            ),
    {
        let ghost after = split_rows(template@.take(it.index() + 1));
        let ghost painted = row.deep_view();
        proof {
            let next = template@.take(it.index() + 1);
            assert(next.drop_last() =~= template@.take(it.index()));
            assert(next.last() == c);
        }
        if c == ROW_SEPARATOR {
            grid.push(row);
            row = Vec::new();
            assert(row.deep_view() =~= paint_row(palette.deep_view(), after.last()));
        } else {
            let color = cell_color(palette, c);
            row.push(color);
            assert(row.deep_view() =~= painted.push(color.deep_view()));
            assert(row.deep_view() =~= paint_row(palette.deep_view(), after.last()));
        }
    }
    assert(template@.take(template@.len() as int) =~= template@);
    grid.push(row);
    assert(grid.deep_view() =~= spec_map_template(template@, palette.deep_view()));
    grid
}

/// The number of separators in a template.
pub open spec fn separators(t: Seq<char>) -> nat
    decreases t.len(),
{
    if t.len() == 0 {
        0
    } else if t.last() == ROW_SEPARATOR {
        separators(t.drop_last()) + 1
    } else {
        separators(t.drop_last())
    }
}

/// The rows put together again, with a separator between one row and the
/// next.
pub open spec fn join_rows(rows: Seq<Seq<char>>) -> Seq<char>
    decreases rows.len(),
{
    if rows.len() == 0 {
        Seq::<char>::empty()
    } else if rows.len() == 1 {
        rows[0]
    } else {
        join_rows(rows.drop_last()).push(ROW_SEPARATOR) + rows.last()
    }
}

/// Splitting loses nothing and cuts at every separator: a template has
/// one row more than it has separators, no row holds a separator, and the
/// rows joined by separators are the template again.
pub proof fn lemma_split_rows(t: Seq<char>)
    ensures
        split_rows(t).len() == separators(t) + 1,
        forall|i: int, j: int|
            0 <= i < split_rows(t).len() && 0 <= j < split_rows(t)[i].len() ==> (
            #[trigger] split_rows(t)[i][j]) != ROW_SEPARATOR,
        join_rows(split_rows(t)) == t,
    decreases t.len(),
{
    if t.len() == 0 {
        assert(join_rows(split_rows(t)) =~= t);
    } else {
        let shorter = t.drop_last();
        let before = split_rows(shorter);
        let after = split_rows(t);
        lemma_split_rows(shorter);
        if t.last() == ROW_SEPARATOR {
            assert(after.drop_last() =~= before);
            assert(join_rows(after) =~= shorter.push(ROW_SEPARATOR));
            assert(shorter.push(t.last()) =~= t);
        } else {
            let grown = before.last().push(t.last());
            assert(after.last() == grown);
            if before.len() == 1 {
                assert(join_rows(before) == before[0]);
                assert(join_rows(after) =~= shorter.push(t.last()));
            } else {
                assert(after.drop_last() =~= before.drop_last());
                assert(join_rows(after) =~= (join_rows(before.drop_last()).push(ROW_SEPARATOR)
                    + before.last()).push(t.last()));
            }
            assert(shorter.push(t.last()) =~= t);
            assert forall|i: int, j: int|
                0 <= i < after.len() && 0 <= j < after[i].len() implies (#[trigger] after[i][j])
                != ROW_SEPARATOR by {
                if i < before.len() - 1 {
                    assert(after[i] == before[i]);
                    assert(before[i][j] != ROW_SEPARATOR);
                } else if j < before.last().len() {
                    assert(after[i][j] == before[i][j]);
                }
            }
        }
    }
}

/// The grid has the shape of the template: a row for each row, and in each
/// row a cell for each character, in the same order.
pub proof fn lemma_grid_shape(t: Seq<char>, palette: PaletteView)
    ensures
        spec_map_template(t, palette).len() == split_rows(t).len(),
        forall|i: int|
            0 <= i < split_rows(t).len() ==> (#[trigger] spec_map_template(t, palette)[i]).len()
                == split_rows(t)[i].len(),
        forall|i: int, j: int|
            0 <= i < split_rows(t).len() && 0 <= j < split_rows(t)[i].len() ==> (
            #[trigger] spec_map_template(t, palette)[i][j]) == cell(palette, split_rows(t)[i][j]),
{
}

/// A character that names slot 0, the digit `0` or any character that is
/// no digit, gives a cell without color under every palette whose first
/// slot is empty.
pub proof fn lemma_slot_zero_is_transparent(palette: PaletteView, c: char)
    requires
        palette.len() > 0 ==> palette[0] is None,
        digit_of(c) == 0,
    ensures
        cell(palette, c) is None,
{
}

/// A cell holds a color only if the palette holds that color: mapping
/// never makes a color up.
pub proof fn lemma_cell_is_from_palette(palette: PaletteView, c: char)
    ensures
        cell(palette, c) is Some ==> palette.contains(cell(palette, c)),
{
    if cell(palette, c) is Some {
        assert(palette[digit_of(c)] == cell(palette, c));
    }
}

} // verus!
