//! Palette quantization and serialization core for a block-coding image
//! literal format: hex color parsing and formatting, named palette documents,
//! nearest-color resolution by squared channel distance, and emission of the
//! `img\`...\`` grid grammar.

use vstd::prelude::*;

pub mod color;
pub mod palette;
pub mod resolve;
pub mod serialize;
pub mod export;
pub mod size;

verus! {

/// Every failure the core can report. I/O failures belong to the
/// surrounding layer, never to this library.
#[derive(Clone, Copy, Debug, PartialEq, Eq, Structural)]
pub enum Error {
    /// A hex color literal of the wrong shape or alphabet.
    InvalidColorFormat,
    /// A palette document that does not follow the grammar; `line` is the
    /// 0-based index of the offending line.
    PaletteParseError { line: usize },
    /// A palette name absent from the set.
    UnknownPalette,
    /// A palette with no entries cannot resolve any pixel.
    EmptyPalette,
    /// A palette index above 15 cannot be rendered as one hex digit.
    IndexOutOfRange,
    /// A size specification that is not `<width>x<height>` with both parts
    /// decimal numbers in range.
    InvalidDimensions,
}

} // verus!
