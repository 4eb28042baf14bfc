//! The decoder: identifier and catalog in, grid of colors out.

use vstd::prelude::*;
use crate::error::ParseError;
use crate::grid::{map_template, spec_map_template, split_rows, GridView};
use crate::identifier::{parse_identifier, spec_parse_identifier};
use crate::palette::{select_palette, spec_select_palette};

verus! {

/// The design at `index` of the catalog, or the error for an index that
/// the catalog does not have.
pub open spec fn spec_select_design(designs: Seq<Seq<char>>, index: usize) -> Result<
    Seq<char>,
    ParseError,
> {
    if index < designs.len() {
        Ok(designs[index as int])
    } else {
        Err(ParseError::DesignIndexOutOfBounds { index })
    }
}

/// Picks a design template from the catalog.
pub fn select_design<'a>(designs: &[&'a str], index: usize) -> (design: Result<
    &'a str,
    ParseError,
>)
    ensures
        match design {
            Ok(template) => spec_select_design(designs.deep_view(), index) == Ok::<
                Seq<char>,
                ParseError,
            >(template@),
            Err(e) => spec_select_design(designs.deep_view(), index) == Err::<
                Seq<char>,
                ParseError,
            >(e),
        },
{
    if index < designs.len() {
        Ok(designs[index])
    } else {
        Err(ParseError::DesignIndexOutOfBounds { index })
    }
}

/// What decoding gives. A fault in the identifier is found before the
/// catalog is looked at; with both in order the result is the selected
/// design mapped through the identifier's palette.
pub open spec fn spec_mooncat_parser(cat_id: Seq<char>, designs: Seq<Seq<char>>) -> Result<
    GridView,
    ParseError,
> {
    match spec_parse_identifier(cat_id) {
        Err(e) => Err(e),
        Ok(f) => match spec_select_design(designs, f.selector_normalized) {
            Err(e) => Err(e),
            Ok(template) => Ok(
                spec_map_template(
                    template,
                    spec_select_palette(f.flag, f.selector, f.invert, f.r, f.g, f.b),
                ),
            ),
        },
    }
}

/// The design that an identifier selects, where its text is well formed
/// and the catalog reaches its index.
pub open spec fn selected_design(cat_id: Seq<char>, designs: Seq<Seq<char>>) -> Seq<char>
    recommends
        spec_mooncat_parser(cat_id, designs) is Ok,
{
    designs[spec_parse_identifier(cat_id)->Ok_0.selector_normalized as int]
}

/// Decodes an identifier into its grid of colors.
///
/// `cat_id` is the identifier in hexadecimal, with or without a leading
/// `0x`; `designs` is the catalog of templates. A cell of the grid holds
/// no color or a color as `#rrggbb`.
pub fn mooncat_parser(cat_id: &str, designs: &[&str]) -> (pixels: Result<
    Vec<Vec<Option<String>>>,
    ParseError,
>)
    ensures
        match pixels {
            Ok(grid) => spec_mooncat_parser(cat_id@, designs.deep_view()) == Ok::<
                GridView,
                ParseError,
            >(grid.deep_view()),
            Err(e) => spec_mooncat_parser(cat_id@, designs.deep_view()) == Err::<
                GridView,
                ParseError,
            >(e),
        },
        pixels matches Ok(grid) ==> grid@.len() == split_rows(
            selected_design(cat_id@, designs.deep_view()),
        ).len(),
{
    proof {
        lemma_grid_has_the_rows_of_its_design(cat_id@, designs.deep_view());
    }
    let fields = match parse_identifier(cat_id) {
        Ok(fields) => fields,
        Err(e) => {
            return Err(e);
        },
    };
    let template = match select_design(designs, fields.selector_normalized) {
        Ok(template) => template,
        Err(e) => {
            return Err(e);
        },
    };
    let palette = select_palette(
        fields.flag,
        fields.selector,
        fields.invert,
        fields.r,
        fields.g,
        fields.b,
    );
    Ok(map_template(template, &palette))
}

/// Decoding gives a grid exactly when the identifier is well formed and
/// the catalog has a design at its index; the grid then has one row for
/// each row of that design.
pub proof fn lemma_grid_has_the_rows_of_its_design(cat_id: Seq<char>, designs: Seq<Seq<char>>)
    ensures
        spec_mooncat_parser(cat_id, designs) is Ok <==> (spec_parse_identifier(cat_id) matches Ok(f)
            && f.selector_normalized < designs.len()),
        spec_mooncat_parser(cat_id, designs) matches Ok(grid) ==> grid.len() == split_rows(
            selected_design(cat_id, designs),
        ).len(),
{
}

/// The last design of a catalog can be selected, and the index after it
/// cannot.
pub proof fn lemma_design_index_boundary(designs: Seq<Seq<char>>, index: usize)
    ensures
        index + 1 == designs.len() ==> spec_select_design(designs, index) == Ok::<
            Seq<char>,
            ParseError,
        >(designs.last()),
        index == designs.len() ==> spec_select_design(designs, index) == Err::<
            Seq<char>,
            ParseError,
        >(ParseError::DesignIndexOutOfBounds { index }),
{
}

} // verus!
