//! Bounds-checked little-endian reads over a memory-mapped byte range.
//!
//! Every raw access the crate performs goes through this module: higher
//! layers never slice the mapped range directly.

use vstd::prelude::*;
use vstd::bytes::*;
use vstd::utf8::valid_utf8;
use vstd::string::StringSliceAdditionalSpecFns;
use crate::NxError;

verus! {

// ---------------------------------------------------------------------------
// The mapped byte range.
//
// The backing file must not be modified by another actor while it is mapped;
// under that (documented, unchecked) precondition the mapped bytes are fixed
// for the lifetime of the map, which is what `mmap_view` expresses.
// ---------------------------------------------------------------------------

#[verifier::external_type_specification]
#[verifier::external_body]
pub struct ExMmap(memmap2::Mmap);

/// The bytes a memory map holds, fixed for the map's lifetime.
pub uninterp spec fn mmap_view(m: &memmap2::Mmap) -> Seq<u8>;

/// Relies on memmap2::Mmap: it dereferences to the mapped bytes, whose
/// length this returns.
#[verifier::external_body]
pub(crate) fn mmap_len(m: &memmap2::Mmap) -> (r: usize)
    ensures
        r == mmap_view(m).len(),
{
    m.len()
}

/// Relies on memmap2::Mmap: it dereferences to the mapped bytes, of which
/// this returns the subslice `start..end`.
#[verifier::external_body]
pub(crate) fn mmap_slice<'a>(m: &'a memmap2::Mmap, start: usize, end: usize) -> (r: &'a [u8])
    requires
        start <= end <= mmap_view(m).len(),
    ensures
        r@ == mmap_view(m).subrange(start as int, end as int),
{
    &m[start..end]
}

/// Relies on str::from_utf8: it succeeds exactly on valid UTF-8, and the
/// resulting string views the same bytes.
#[verifier::external_body]
pub(crate) fn bytes_as_str(b: &[u8]) -> (r: Option<&str>)
    ensures
        r is Some <==> valid_utf8(b@),
        r matches Some(s) ==> s.spec_bytes() == b@,
{
    core::str::from_utf8(b).ok()
}

// ---------------------------------------------------------------------------
// LZ4 block decompression.
// ---------------------------------------------------------------------------

/// What a well-formed LZ4 block decompresses to; `None` when the block is
/// malformed. The result is a function of the compressed bytes alone.
pub uninterp spec fn lz4_block_decode(b: Seq<u8>) -> Option<Seq<u8>>;

/// Relies on lz4_flex::decompress: block decompression into a buffer of
/// `max_len` bytes. It fails exactly when the input is malformed or its
/// decompressed form does not fit the buffer.
#[verifier::external_body]
pub(crate) fn lz4_decompress(input: &[u8], max_len: usize) -> (r: Option<Vec<u8>>)
    ensures
        r matches Some(out) ==> lz4_block_decode(input@) == Some(out@) && out@.len() <= max_len,
        (lz4_block_decode(input@) matches Some(d) && d.len() <= max_len) ==> r is Some,
{
    lz4_flex::decompress(input, max_len).ok()
}

// ---------------------------------------------------------------------------
// Little-endian decoding, as mathematical functions of the byte range.
// ---------------------------------------------------------------------------

/// The u16 stored little-endian at byte offset `off` of `v`.
pub open spec fn le16_at(v: Seq<u8>, off: int) -> u16 {
    spec_u16_from_le_bytes(v.subrange(off, off + 2))
}

/// The u32 stored little-endian at byte offset `off` of `v`.
pub open spec fn le32_at(v: Seq<u8>, off: int) -> u32 {
    spec_u32_from_le_bytes(v.subrange(off, off + 4))
}

/// The u64 stored little-endian at byte offset `off` of `v`.
pub open spec fn le64_at(v: Seq<u8>, off: int) -> u64 {
    spec_u64_from_le_bytes(v.subrange(off, off + 8))
}

// ---------------------------------------------------------------------------
// Out-of-bounds errors.
// ---------------------------------------------------------------------------

/// `x`, capped at the largest byte position a machine word can name.
pub open spec fn cap_pos(x: int) -> int {
    if x > usize::MAX { usize::MAX as int } else { x }
}

/// The error reported for a read of `start..end`, both ends capped.
pub open spec fn oob_err(start: int, end: int) -> NxError {
    NxError::OutOfBoundsRange(cap_pos(start) as usize, cap_pos(end) as usize)
}

/// `a + b`, as a byte position saturating at `usize::MAX`.
pub(crate) fn sat_pos(a: u64, b: u64) -> (r: usize)
    ensures
        r == cap_pos(a + b),
{
    let m: u64 = usize::MAX as u64;
    if a >= m || b >= m - a {
        usize::MAX
    } else {
        (a + b) as usize
    }
}

// ---------------------------------------------------------------------------
// Bounds-checked reads.
// ---------------------------------------------------------------------------

/// The `len` bytes at offset `index`, or an out-of-bounds error.
pub(crate) fn try_get_bytes<'a>(m: &'a memmap2::Mmap, index: u64, len: usize) -> (r: Result<
    &'a [u8],
    NxError,
>)
    ensures
        r is Ok <==> index + len <= mmap_view(m).len(),
        r matches Ok(b) ==> b@ == mmap_view(m).subrange(index as int, index + len),
        r matches Err(e) ==> e == oob_err(index as int, index + len),
{
    let n = mmap_len(m) as u64;
    if len as u64 <= n && index <= n - len as u64 {
        Ok(mmap_slice(m, index as usize, (index + len as u64) as usize))
    } else {
        Err(NxError::OutOfBoundsRange(sat_pos(index, 0), sat_pos(index, len as u64)))
    }
}

/// The little-endian u16 at offset `index`.
pub(crate) fn try_get_u16(m: &memmap2::Mmap, index: u64) -> (r: Result<u16, NxError>)
    ensures
        r is Ok <==> index + 2 <= mmap_view(m).len(),
        r matches Ok(x) ==> x == le16_at(mmap_view(m), index as int),
        r matches Err(e) ==> e == oob_err(index as int, index + 2),
{
    match try_get_bytes(m, index, 2) {
        Ok(b) => Ok(u16_from_le_bytes(b)),
        Err(e) => Err(e),
    }
}

/// The little-endian u32 at offset `index`.
pub(crate) fn try_get_u32(m: &memmap2::Mmap, index: u64) -> (r: Result<u32, NxError>)
    ensures
        r is Ok <==> index + 4 <= mmap_view(m).len(),
        r matches Ok(x) ==> x == le32_at(mmap_view(m), index as int),
        r matches Err(e) ==> e == oob_err(index as int, index + 4),
{
    match try_get_bytes(m, index, 4) {
        Ok(b) => Ok(u32_from_le_bytes(b)),
        Err(e) => Err(e),
    }
}

/// The little-endian u64 at offset `index`.
pub(crate) fn try_get_u64(m: &memmap2::Mmap, index: u64) -> (r: Result<u64, NxError>)
    ensures
        r is Ok <==> index + 8 <= mmap_view(m).len(),
        r matches Ok(x) ==> x == le64_at(mmap_view(m), index as int),
        r matches Err(e) ==> e == oob_err(index as int, index + 8),
{
    match try_get_bytes(m, index, 8) {
        Ok(b) => Ok(u64_from_le_bytes(b)),
        Err(e) => Err(e),
    }
}

} // verus!
