use mooncat::identifier::{extract_fields, parse_identifier, strip_hex_prefix, Fields};
use mooncat::{IdentifierFault, ParseError};

#[test]
fn fields_of_a_plain_identifier() {
    assert_eq!(
        parse_identifier("0x00c4202241"),
        Ok(Fields {
            flag: false,
            selector: 0xc4,
            invert: true,
            selector_normalized: 68,
            r: 0x20,
            g: 0x22,
            b: 0x41,
        })
    );
}

#[test]
fn fields_of_a_special_identifier() {
    assert_eq!(
        parse_identifier("ff7f0a0B0c"),
        Ok(Fields {
            flag: true,
            selector: 127,
            invert: false,
            selector_normalized: 127,
            r: 10,
            g: 11,
            b: 12,
        })
    );
}

#[test]
fn digits_pair_up_high_half_first() {
    let fields = parse_identifier("0x011e10fa9B").unwrap();
    assert_eq!(fields.selector, 0x1e);
    assert_eq!(fields.r, 0x10);
    assert_eq!(fields.g, 0xfa);
    assert_eq!(fields.b, 0x9b);
}

#[test]
fn inversion_starts_at_128() {
    let below = extract_fields(&[0, 127, 0, 0, 0]).unwrap();
    assert!(!below.invert);
    assert_eq!(below.selector_normalized, 127);
    let at = extract_fields(&[0, 128, 0, 0, 0]).unwrap();
    assert!(at.invert);
    assert_eq!(at.selector_normalized, 0);
    let top = extract_fields(&[0, 255, 0, 0, 0]).unwrap();
    assert!(top.invert);
    assert_eq!(top.selector_normalized, 127);
}

#[test]
fn any_nonzero_first_byte_sets_the_flag() {
    assert!(!extract_fields(&[0, 0, 0, 0, 0]).unwrap().flag);
    assert!(extract_fields(&[1, 0, 0, 0, 0]).unwrap().flag);
    assert!(extract_fields(&[255, 0, 0, 0, 0]).unwrap().flag);
}

#[test]
fn four_bytes_are_too_short() {
    let too_short = Err(ParseError::MalformedIdentifier(IdentifierFault::TooShort));
    assert_eq!(extract_fields(&[1, 2, 3, 4]), too_short);
    assert_eq!(extract_fields(&[]), too_short);
    assert!(extract_fields(&[1, 2, 3, 4, 5]).is_ok());
    assert!(extract_fields(&[1, 2, 3, 4, 5, 6]).is_ok());
}

#[test]
fn prefix_is_taken_off_once() {
    assert_eq!(strip_hex_prefix("0x12"), "12");
    assert_eq!(strip_hex_prefix("0x"), "");
    assert_eq!(strip_hex_prefix("0x0x12"), "0x12");
    assert_eq!(strip_hex_prefix("12"), "12");
    assert_eq!(strip_hex_prefix("0X12"), "0X12");
    assert_eq!(strip_hex_prefix("x012"), "x012");
    assert_eq!(strip_hex_prefix("0"), "0");
    assert_eq!(strip_hex_prefix(""), "");
    assert_eq!(strip_hex_prefix("0x\u{e9}1"), "\u{e9}1");
}

#[test]
fn faults_of_the_text() {
    let not_hex = Err(ParseError::MalformedIdentifier(IdentifierFault::NotHex));
    let too_short = Err(ParseError::MalformedIdentifier(IdentifierFault::TooShort));
    assert_eq!(parse_identifier("0x00c420224"), not_hex);
    assert_eq!(parse_identifier("0x00c42022g1"), not_hex);
    assert_eq!(parse_identifier("0x00c4 202241"), not_hex);
    assert_eq!(parse_identifier("\u{e9}\u{e9}\u{e9}\u{e9}\u{e9}"), not_hex);
    assert_eq!(parse_identifier("0x00c42022"), too_short);
    assert_eq!(parse_identifier(""), too_short);
}
