use vstd::prelude::*;

pub mod file;
pub mod node;
pub mod order;
pub mod raw;

verus! {

/// The 4-byte magic constant ("PKG4") that every NX file begins with.
pub const NX_MAGIC: u32 = 0x34474B50;

/// An error that occurred when reading an NX file.
#[derive(Debug, Clone, Copy, PartialEq, Eq)]
pub enum NxError {
    /// The file could not be opened or mapped.
    Io,
    /// The file's header is invalid: bad magic, or truncated before byte 52.
    InvalidHeader,
    /// A single-position read fell outside the mapped range.
    OutOfBoundsIndex(usize),
    /// A range read fell outside the mapped range.
    OutOfBoundsRange(usize, usize),
    /// A fixed-width conversion had the wrong length; defensive, unreachable
    /// through this crate's own reads.
    InvalidCast,
    /// Bytes that should have held a string were not valid UTF-8.
    InvalidString,
    /// A bitmap's compressed payload did not decompress to the declared size.
    Decompression,
}

/// A decoded bitmap: `width * height` pixels of four bytes each.
#[derive(Debug)]
pub struct NxBitmap {
    pub width: u16,
    pub height: u16,
    pub data: Vec<u8>,
}

} // verus!
