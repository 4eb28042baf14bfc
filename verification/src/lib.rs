//! Decoder for MoonCat identifiers: a five-byte identifier selects a design
//! template and a six-slot palette, and the template's digits are mapped
//! through the palette into a grid of optional colors.

pub mod color;
pub mod decode;
pub mod error;
pub mod grid;
pub mod hexcode;
pub mod hsl;
pub mod identifier;
pub mod palette;
pub mod raster;

pub use decode::mooncat_parser;
pub use error::{IdentifierFault, ParseError};
pub use palette::derive_palette;
pub use color::rgb_to_hex;
