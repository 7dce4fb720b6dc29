use vstd::prelude::*;

verus! {

/// Why an operation on a cartridge image failed.
#[derive(Debug, Clone, Copy, PartialEq, Eq, Structural)]
pub enum RomError {
    /// A fixed-layout record does not fit in the bytes that remain.
    Format,
    /// The game code of the header names a game that is not supported.
    UnsupportedVariant,
    /// An offset, or the range read from it, lies outside the image.
    OutOfBounds,
    /// Compressed data has a wrong signature or ends inside a block.
    Decompression,
    /// No image has been loaded into the session.
    NoImageLoaded,
}

} // verus!
