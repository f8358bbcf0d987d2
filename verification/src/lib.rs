//! Decoder for a game-asset container format: a fixed 320-byte big-endian
//! header, an entry table and a block table, where each logical file is
//! stitched together from one or more fixed-capacity, optionally compressed
//! storage blocks, plus integrity checks (table and block hashes, header
//! signature).
//!
//! The library works on plain byte buffers; reading container and patch
//! files, and running the native decompression transform, are the caller's
//! job.

pub mod bytes;
pub mod structs;
pub mod codec;
pub mod package;
pub mod integrity;

use vstd::prelude::*;

verus! {

/// The failure taxonomy of the library.
///
/// `Decode`: malformed or truncated header or table, or an unrecognized
/// enumeration value. `Io`: a patch buffer too short for a block's declared
/// region. `Range`: a block index outside the block table, or an entry walk
/// running off the table's end. `Decompression`: the external transform
/// reported failure (zero or negative output).
#[derive(Clone, Copy, Debug, PartialEq, Eq, Structural)]
pub enum PackageError {
    Decode,
    Io,
    Range,
    Decompression,
}

} // verus!
