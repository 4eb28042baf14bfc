use mooncat::decode::select_design;
use mooncat::{mooncat_parser, IdentifierFault, ParseError};

fn some(text: &str) -> Option<String> {
    Some(text.to_string())
}

const LABUBU: &str = "0000011000000011000000.0004144100000144100000.0004141410001414100000.0012441410001414410000.0012211441014411410000.0012213041014031410000.0012213041014031410000.0012213041014031410000.0012444411111444410000.0012444444444444410000.0011144444444444110000.0124444444444444441000.1444444444444444444100.4444433344444333444410.4443300033333000344410.4430000000000000034410.4430030030003003034441.4300003000000030003441.4300000400000400003441.4300004100000140003441.4330004403330440033441.4300004400300440003441.4300000000000000003441.4430000000000000034410.4433000000000000034410.4443300000000000344410.1124433000000033441100.0011144333333344110000.0124214444144441441000.1441141111111114144100.4441144414141444144410.4412444444144444414410.4412444444144444414410.0212444444144444414030.0124444414141444441000.0124444414141444441000.0124444444144444441000.0124444444144444441000.0124444414141444441000.0014044441114444010000";

#[test]
fn all_zero_identifier_paints_slot_one_dark_red() {
    let grid = mooncat_parser("0000000000", &["00.01"]).unwrap();
    assert_eq!(grid, vec![vec![None, None], vec![None, some("#330000")]]);
}

#[test]
fn inverted_blue_seed_reverses_the_lightness_order() {
    let grid = mooncat_parser("0x00800000ff", &["012345"]).unwrap();
    assert_eq!(
        grid,
        vec![vec![
            None,
            some("#000033"),
            some("#6666ff"),
            some("#0000e6"),
            some("#000066"),
            some("#99ddff"),
        ]]
    );
}

#[test]
fn plain_blue_seed_keeps_the_lightness_order() {
    let grid = mooncat_parser("0x00000000ff", &["012345"]).unwrap();
    assert_eq!(
        grid,
        vec![vec![
            None,
            some("#000033"),
            some("#000066"),
            some("#0000e6"),
            some("#6666ff"),
            some("#99ddff"),
        ]]
    );
}

#[test]
fn prefix_is_optional() {
    let catalog = ["12.34"];
    assert_eq!(
        mooncat_parser("0x0000202241", &catalog),
        mooncat_parser("0000202241", &catalog)
    );
    assert!(mooncat_parser("0000202241", &catalog).is_ok());
}

#[test]
fn upper_case_digits_are_accepted() {
    let catalog = ["12345"];
    assert_eq!(
        mooncat_parser("0x0000ABCDEF", &catalog),
        mooncat_parser("0x0000abcdef", &catalog)
    );
    assert!(mooncat_parser("0x0000ABCDEF", &catalog).is_ok());
}

#[test]
fn bytes_after_the_fifth_are_ignored() {
    let catalog = ["12345"];
    assert_eq!(
        mooncat_parser("00000cc84d", &catalog),
        mooncat_parser("00000cc84dffee", &catalog)
    );
}

#[test]
fn special_identifier_uses_a_fixed_palette() {
    let catalog = ["012345", "012345"];
    let light = vec![vec![
        None,
        some("#555555"),
        some("#d3d3d3"),
        some("#ffffff"),
        some("#aaaaaa"),
        some("#ff9999"),
    ]];
    let dark = vec![vec![
        None,
        some("#555555"),
        some("#222222"),
        some("#111111"),
        some("#bbbbbb"),
        some("#ff9999"),
    ]];
    // odd selector, not inverted
    assert_eq!(mooncat_parser("0x0101aabbcc", &catalog), Ok(light.clone()));
    // even selector, inverted
    assert_eq!(mooncat_parser("0xff80aabbcc", &catalog), Ok(light));
    // even selector, not inverted
    assert_eq!(mooncat_parser("0x0100aabbcc", &catalog), Ok(dark.clone()));
    // odd selector, inverted
    assert_eq!(mooncat_parser("0x0181aabbcc", &catalog), Ok(dark));
}

#[test]
fn special_palette_ignores_the_seed() {
    let catalog = ["012345"];
    assert_eq!(
        mooncat_parser("0x0100000000", &catalog),
        mooncat_parser("0x0100ff8001", &catalog)
    );
}

#[test]
fn text_that_is_not_hexadecimal_is_malformed() {
    let catalog = ["0"];
    let not_hex = Err(ParseError::MalformedIdentifier(IdentifierFault::NotHex));
    assert_eq!(mooncat_parser("zz00000000", &catalog), not_hex);
    assert_eq!(mooncat_parser("000000000", &catalog), not_hex);
    assert_eq!(mooncat_parser("0x000000000", &catalog), not_hex);
    assert_eq!(mooncat_parser("0X0000000000", &catalog), not_hex);
    assert_eq!(mooncat_parser("0x0x0000000000", &catalog), not_hex);
    assert_eq!(mooncat_parser("#0000000000", &catalog), not_hex);
    assert_eq!(mooncat_parser("00 00000000", &catalog), not_hex);
    assert_eq!(mooncat_parser("00000000\u{e9}\u{e9}", &catalog), not_hex);
    assert_eq!(mooncat_parser("0x", &catalog).is_err(), true);
}

#[test]
fn fewer_than_five_bytes_is_malformed() {
    let catalog = ["0"];
    let too_short = Err(ParseError::MalformedIdentifier(IdentifierFault::TooShort));
    assert_eq!(mooncat_parser("00000000", &catalog), too_short);
    assert_eq!(mooncat_parser("0x00000000", &catalog), too_short);
    assert_eq!(mooncat_parser("", &catalog), too_short);
    assert_eq!(mooncat_parser("0x", &catalog), too_short);
}

#[test]
fn malformed_identifier_is_reported_before_the_catalog_is_read() {
    let empty: [&str; 0] = [];
    assert_eq!(
        mooncat_parser("00", &empty),
        Err(ParseError::MalformedIdentifier(IdentifierFault::TooShort))
    );
    assert_eq!(
        mooncat_parser("0000000000", &empty),
        Err(ParseError::DesignIndexOutOfBounds { index: 0 })
    );
}

#[test]
fn last_design_is_found_and_the_next_index_is_not() {
    let catalog = ["1", "2", "3", "4", "5"];
    assert_eq!(
        mooncat_parser("0x0004000000", &catalog),
        Ok(vec![vec![some("#ff99dd")]])
    );
    assert_eq!(
        mooncat_parser("0x0005000000", &catalog),
        Err(ParseError::DesignIndexOutOfBounds { index: 5 })
    );
}

#[test]
fn design_index_leaves_the_inversion_out() {
    let catalog = ["1", "2", "3"];
    // selector 0x82 is inverted and names design 2
    assert_eq!(
        mooncat_parser("0x0082000000", &catalog),
        Ok(vec![vec![some("#e60000")]])
    );
    // selector 0xff names design 127
    assert_eq!(
        mooncat_parser("0x00ff000000", &catalog),
        Err(ParseError::DesignIndexOutOfBounds { index: 127 })
    );
}

#[test]
fn select_design_by_index() {
    let catalog = ["a", "b"];
    assert_eq!(select_design(&catalog, 0), Ok("a"));
    assert_eq!(select_design(&catalog, 1), Ok("b"));
    assert_eq!(
        select_design(&catalog, 2),
        Err(ParseError::DesignIndexOutOfBounds { index: 2 })
    );
}

#[test]
fn grid_has_one_row_for_each_row_of_the_design() {
    let grid = mooncat_parser("0000000000", &[LABUBU]).unwrap();
    assert_eq!(grid.len(), 40);
    for row in grid.iter() {
        assert_eq!(row.len(), 22);
    }
    assert_eq!(grid[0][5], some("#330000"));
    assert_eq!(grid[0][0], None);
    assert_eq!(grid[1][3], some("#ff6666"));
    assert_eq!(grid[1][4], some("#330000"));
    assert_eq!(grid[4][3], some("#660000"));
    assert_eq!(grid[5][6], some("#e60000"));
}
