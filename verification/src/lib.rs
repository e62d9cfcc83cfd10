//! A PNG steganography library: a chunk-level codec for the PNG container
//! format together with a crash-safe file mutation transaction, modelled and
//! verified over an explicit in-memory view of the files involved.

use vstd::prelude::*;

pub mod atomic_file;
pub mod chunk;
pub mod chunk_type;
pub mod commands;
pub mod crc;
pub mod png;
pub mod policy;

verus! {

/// The closed set of error kinds the library reports. Callers branch on the
/// kind; human-readable rendering is left to the surrounding application.
#[derive(Debug, Clone, Copy, PartialEq, Eq, Structural)]
pub enum PngError {
    /// Bad signature, malformed chunk, checksum mismatch, non-alphabetic tag.
    Format,
    /// Critical-chunk misuse on add, duplicate tag, bad tag shape.
    Validation,
    /// Requested tag or backup absent.
    NotFound,
    /// A filesystem step failed.
    Io,
    /// Chunk payload is not decodable as text.
    Encoding,
}

} // verus!
