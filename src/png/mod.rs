//! PNG container reading and writing.
use vstd::prelude::*;

pub mod bytes;
pub mod chunk;
pub mod crc;
pub mod decode;
pub mod encode;
pub mod filter;
pub mod header;
pub mod integrity;
pub mod unpack;
pub mod zlib;

verus! {

/// What can go wrong while reading or writing a PNG stream.
#[derive(Debug, Clone, Copy, PartialEq, Eq, Structural)]
pub enum PNGError {
    /// The first eight bytes are not the PNG magic.
    InvalidSignature,
    /// A chunk's length, type, payload or CRC runs past the end of the data.
    MalformedChunk,
    /// A critical chunk's stored CRC disagrees with its contents.
    CrcMismatch,
    /// The header chunk is missing, misplaced, not 13 bytes long, or has a zero dimension.
    MalformedHeader,
    /// The color type and bit depth do not form a legal pair.
    InvalidBitDepth,
    /// The palette payload is not a whole number of RGB triples, or holds more than 256.
    InvalidPalette,
    /// The stream holds no end chunk.
    MissingIend,
    /// The compressed image data could not be inflated.
    DecompressionFailure,
    /// The pixel buffer does not match the declared dimensions.
    InvalidImageSize,
}

} // verus!
