//! The memory-mapped NX file: header decoding and the flat offset tables.

use vstd::prelude::*;
use vstd::utf8::valid_utf8;
use vstd::string::StringSliceAdditionalSpecFns;
use crate::node::{rec_at, try_get_node_data, NxNode, NxNodeData};
use crate::raw::{
    le16_at, le32_at, le64_at, mmap_len, mmap_view, oob_err, try_get_u16, try_get_u32, try_get_u64,
};
use crate::{NxError, NX_MAGIC};

verus! {

// ---------------------------------------------------------------------------
// The header, as mathematical functions of the mapped bytes.
// ---------------------------------------------------------------------------

/// The header region is intact: the file holds at least the 52 fixed header
/// bytes and starts with the magic constant.
pub open spec fn header_ok(v: Seq<u8>) -> bool {
    v.len() >= 52 && le32_at(v, 0) == NX_MAGIC
}

/// Total number of node records.
pub open spec fn spec_node_count(v: Seq<u8>) -> u32 {
    le32_at(v, 4)
}

/// Byte offset of the node table.
pub open spec fn spec_node_offset(v: Seq<u8>) -> u64 {
    le64_at(v, 8)
}

/// Total number of strings.
pub open spec fn spec_string_count(v: Seq<u8>) -> u32 {
    le32_at(v, 16)
}

/// Byte offset of the string offset-table.
pub open spec fn spec_string_offset(v: Seq<u8>) -> u64 {
    le64_at(v, 20)
}

/// Total number of bitmaps.
pub open spec fn spec_bitmap_count(v: Seq<u8>) -> u32 {
    le32_at(v, 28)
}

/// Byte offset of the bitmap offset-table.
pub open spec fn spec_bitmap_offset(v: Seq<u8>) -> u64 {
    le64_at(v, 32)
}

/// Total number of audio blobs.
pub open spec fn spec_audio_count(v: Seq<u8>) -> u32 {
    le32_at(v, 40)
}

/// Byte offset of the audio offset-table.
pub open spec fn spec_audio_offset(v: Seq<u8>) -> u64 {
    le64_at(v, 44)
}

// ---------------------------------------------------------------------------
// String resolution.
// ---------------------------------------------------------------------------

/// Position in the string offset-table of the entry for string index `i`.
pub open spec fn str_table_pos(v: Seq<u8>, i: int) -> int {
    spec_string_offset(v) + i * 8
}

/// Resolving string index `i`: an 8-byte offset in the table, a u16 length
/// prefix at that offset, then that many bytes. UTF-8 validity is not part
/// of this raw read.
pub open spec fn spec_get_str_raw(v: Seq<u8>, i: int) -> Result<Seq<u8>, NxError> {
    let p = str_table_pos(v, i);
    if p + 8 > v.len() {
        Err(oob_err(p, p + 8))
    } else {
        let off = le64_at(v, p) as int;
        if off + 2 > v.len() {
            Err(oob_err(off, off + 2))
        } else {
            let l = le16_at(v, off) as int;
            if off + 2 + l > v.len() {
                Err(oob_err(off + 2, off + 2 + l))
            } else {
                Ok(v.subrange(off + 2, off + 2 + l))
            }
        }
    }
}

/// Law: a string entry that resolves yields exactly the number of bytes its
/// u16 length prefix declares; with `get_str`'s contract, a resolved string
/// is always valid UTF-8 of the declared length.
pub proof fn lemma_resolved_string_length(v: Seq<u8>, i: int)
    requires
        spec_get_str_raw(v, i) is Ok,
    ensures
        spec_get_str_raw(v, i)->Ok_0.len() == le16_at(v, le64_at(v, str_table_pos(v, i)) as int),
{
}

/// Resolving string index `i`, including the UTF-8 check.
pub open spec fn spec_get_str(v: Seq<u8>, i: int) -> Result<Seq<u8>, NxError> {
    match spec_get_str_raw(v, i) {
        Ok(b) => if valid_utf8(b) {
            Ok(b)
        } else {
            Err(NxError::InvalidString)
        },
        Err(e) => Err(e),
    }
}

// ---------------------------------------------------------------------------
// Bitmap resolution.
// ---------------------------------------------------------------------------

/// Position in the bitmap offset-table of the entry for bitmap index `i`.
pub open spec fn bmp_table_pos(v: Seq<u8>, i: int) -> int {
    spec_bitmap_offset(v) + i * 8
}

/// Resolving bitmap index `i`: an 8-byte offset in the table, a u32 length
/// prefix at that offset, then that many compressed bytes.
pub open spec fn spec_get_bitmap(v: Seq<u8>, i: int) -> Result<Seq<u8>, NxError> {
    let p = bmp_table_pos(v, i);
    if p + 8 > v.len() {
        Err(oob_err(p, p + 8))
    } else {
        let off = le64_at(v, p) as int;
        if off + 4 > v.len() {
            Err(oob_err(off, off + 4))
        } else {
            let l = le32_at(v, off) as int;
            if off + 4 + l > v.len() {
                Err(oob_err(off + 4, off + 4 + l))
            } else {
                Ok(v.subrange(off + 4, off + 4 + l))
            }
        }
    }
}

// ---------------------------------------------------------------------------
// The decoded header.
// ---------------------------------------------------------------------------

pub(crate) struct NxHeader {
    pub(crate) node_count: u32,
    pub(crate) node_offset: u64,
    pub(crate) string_count: u32,
    pub(crate) string_offset: u64,
    pub(crate) bitmap_count: u32,
    pub(crate) bitmap_offset: u64,
    pub(crate) audio_count: u32,
    pub(crate) audio_offset: u64,
}

impl NxHeader {
    /// Every field holds the value stored at its fixed position in `v`.
    pub(crate) open spec fn decodes(self, v: Seq<u8>) -> bool {
        &&& self.node_count == spec_node_count(v)
        &&& self.node_offset == spec_node_offset(v)
        &&& self.string_count == spec_string_count(v)
        &&& self.string_offset == spec_string_offset(v)
        &&& self.bitmap_count == spec_bitmap_count(v)
        &&& self.bitmap_offset == spec_bitmap_offset(v)
        &&& self.audio_count == spec_audio_count(v)
        &&& self.audio_offset == spec_audio_offset(v)
    }

    /// Validates the magic constant, then decodes the eight count and offset
    /// fields. Every failure in this region, truncation included, is
    /// reported as an invalid header.
    pub(crate) fn new(data: &memmap2::Mmap) -> (r: Result<Self, NxError>)
        ensures
            r is Ok <==> header_ok(mmap_view(data)),
            r matches Ok(h) ==> h.decodes(mmap_view(data)),
            r matches Err(e) ==> e == NxError::InvalidHeader,
    {
        let magic = match try_get_u32(data, 0) {
            Ok(x) => x,
            Err(_) => return Err(NxError::InvalidHeader),
        };
        if magic != NX_MAGIC {
            return Err(NxError::InvalidHeader);
        }
        if mmap_len(data) < 52 {
            return Err(NxError::InvalidHeader);
        }
        let node_count = match try_get_u32(data, 4) {
            Ok(x) => x,
            Err(_) => return Err(NxError::InvalidHeader),
        };
        let node_offset = match try_get_u64(data, 8) {
            Ok(x) => x,
            Err(_) => return Err(NxError::InvalidHeader),
        };
        let string_count = match try_get_u32(data, 16) {
            Ok(x) => x,
            Err(_) => return Err(NxError::InvalidHeader),
        };
        let string_offset = match try_get_u64(data, 20) {
            Ok(x) => x,
            Err(_) => return Err(NxError::InvalidHeader),
        };
        let bitmap_count = match try_get_u32(data, 28) {
            Ok(x) => x,
            Err(_) => return Err(NxError::InvalidHeader),
        };
        let bitmap_offset = match try_get_u64(data, 32) {
            Ok(x) => x,
            Err(_) => return Err(NxError::InvalidHeader),
        };
        let audio_count = match try_get_u32(data, 40) {
            Ok(x) => x,
            Err(_) => return Err(NxError::InvalidHeader),
        };
        let audio_offset = match try_get_u64(data, 44) {
            Ok(x) => x,
            Err(_) => return Err(NxError::InvalidHeader),
        };
        Ok(NxHeader {
            node_count,
            node_offset,
            string_count,
            string_offset,
            bitmap_count,
            bitmap_offset,
            audio_count,
            audio_offset,
        })
    }
}

// ---------------------------------------------------------------------------
// The open file.
// ---------------------------------------------------------------------------

/// A memory-mapped NX file whose header and root record have been decoded.
pub struct NxFile {
    pub(crate) data: memmap2::Mmap,
    pub(crate) header: NxHeader,
    pub(crate) root: NxNodeData,
}

impl View for NxFile {
    type V = Seq<u8>;

    /// The file's mapped bytes.
    closed spec fn view(&self) -> Seq<u8> {
        mmap_view(&self.data)
    }
}

/// A file's view is the view of its mapped range; other modules read
/// through the map and need the two related.
pub(crate) proof fn lemma_file_view(f: &NxFile)
    ensures
        f@ == mmap_view(&f.data),
{
}

impl NxFile {
    #[verifier::type_invariant]
    pub(crate) open spec fn wf(self) -> bool {
        &&& self@.len() <= usize::MAX
        &&& header_ok(self@)
        &&& self.header.decodes(self@)
        &&& spec_node_offset(self@) + 20 <= self@.len()
        &&& self.root == rec_at(self@, spec_node_offset(self@) as int)
    }

    /// Takes ownership of a mapped byte range, validates its header and
    /// decodes the root node record.
    pub fn from_map(data: memmap2::Mmap) -> (r: Result<Self, NxError>)
        ensures
            r is Ok <==> header_ok(mmap_view(&data)) && spec_node_offset(mmap_view(&data)) + 20
                <= mmap_view(&data).len(),
            r matches Ok(f) ==> f@ == mmap_view(&data),
            r matches Err(e) ==> e == (if !header_ok(mmap_view(&data)) {
                NxError::InvalidHeader
            } else {
                oob_err(
                    spec_node_offset(mmap_view(&data)) as int,
                    spec_node_offset(mmap_view(&data)) + 20,
                )
            }),
    {
        // a mapped range is a slice, so its length fits in a machine word
        let n = mmap_len(&data);
        if n < 52 {
            return Err(NxError::InvalidHeader);
        }
        let header = match NxHeader::new(&data) {
            Ok(h) => h,
            Err(e) => return Err(e),
        };
        let root = match try_get_node_data(&data, header.node_offset) {
            Ok(d) => d,
            Err(e) => return Err(e),
        };
        Ok(NxFile { data, header, root })
    }

    /// Gets the total number of nodes in the file.
    pub fn node_count(&self) -> (r: u32)
        ensures
            r == spec_node_count(self@),
    {
        proof {
            use_type_invariant(&*self);
        }
        self.header.node_count
    }

    /// Gets the total number of strings in the file.
    pub fn string_count(&self) -> (r: u32)
        ensures
            r == spec_string_count(self@),
    {
        proof {
            use_type_invariant(&*self);
        }
        self.header.string_count
    }

    /// Gets the total number of bitmaps in the file.
    pub fn bitmap_count(&self) -> (r: u32)
        ensures
            r == spec_bitmap_count(self@),
    {
        proof {
            use_type_invariant(&*self);
        }
        self.header.bitmap_count
    }

    /// Gets the total number of audio tracks in the file.
    pub fn audio_count(&self) -> (r: u32)
        ensures
            r == spec_audio_count(self@),
    {
        proof {
            use_type_invariant(&*self);
        }
        self.header.audio_count
    }

    /// Gets the root node.
    pub fn root<'a>(&'a self) -> (r: NxNode<'a>)
        ensures
            r.file_view() == self@,
            r.rec() == rec_at(self@, spec_node_offset(self@) as int),
    {
        proof {
            use_type_invariant(&*self);
        }
        NxNode::make(self.root, self)
    }

    /// Resolves a string index to the raw bytes of its table entry, without
    /// the UTF-8 check; the search path compares names at this level.
    pub(crate) fn get_str_bytes<'a>(&'a self, index: u32) -> (r: Result<&'a [u8], NxError>)
        ensures
            r is Ok <==> spec_get_str_raw(self@, index as int) is Ok,
            r matches Ok(b) ==> b@ == spec_get_str_raw(self@, index as int)->Ok_0,
            r matches Err(e) ==> e == spec_get_str_raw(self@, index as int)->Err_0,
    {
        proof {
            use_type_invariant(&*self);
        }
        let idx8: u64 = (index as u64) * 8;
        let so = self.header.string_offset;
        if so > u64::MAX - idx8 {
            return Err(NxError::OutOfBoundsRange(usize::MAX, usize::MAX));
        }
        let off = match try_get_u64(&self.data, so + idx8) {
            Ok(x) => x,
            Err(e) => return Err(e),
        };
        let len = match try_get_u16(&self.data, off) {
            Ok(x) => x,
            Err(e) => return Err(e),
        };
        match crate::raw::try_get_bytes(&self.data, off + 2, len as usize) {
            Ok(b) => Ok(b),
            Err(e) => Err(e),
        }
    }

    /// Gets a string from the file at the given index.
    pub(crate) fn get_str<'a>(&'a self, index: u32) -> (r: Result<&'a str, NxError>)
        ensures
            r is Ok <==> spec_get_str(self@, index as int) is Ok,
            r matches Ok(s) ==> s.spec_bytes() == spec_get_str(self@, index as int)->Ok_0,
            r matches Err(e) ==> e == spec_get_str(self@, index as int)->Err_0,
    {
        let b = match self.get_str_bytes(index) {
            Ok(b) => b,
            Err(e) => return Err(e),
        };
        match crate::raw::bytes_as_str(b) {
            Some(s) => Ok(s),
            None => Err(NxError::InvalidString),
        }
    }

    /// Gets a bitmap's compressed payload from the file at the given index.
    pub(crate) fn get_bitmap<'a>(&'a self, index: u32) -> (r: Result<&'a [u8], NxError>)
        ensures
            r is Ok <==> spec_get_bitmap(self@, index as int) is Ok,
            r matches Ok(b) ==> b@ == spec_get_bitmap(self@, index as int)->Ok_0,
            r matches Err(e) ==> e == spec_get_bitmap(self@, index as int)->Err_0,
    {
        proof {
            use_type_invariant(&*self);
        }
        let idx8: u64 = (index as u64) * 8;
        let bo = self.header.bitmap_offset;
        if bo > u64::MAX - idx8 {
            return Err(NxError::OutOfBoundsRange(usize::MAX, usize::MAX));
        }
        let off = match try_get_u64(&self.data, bo + idx8) {
            Ok(x) => x,
            Err(e) => return Err(e),
        };
        let len = match try_get_u32(&self.data, off) {
            Ok(x) => x,
            Err(e) => return Err(e),
        };
        match crate::raw::try_get_bytes(&self.data, off + 4, len as usize) {
            Ok(b) => Ok(b),
            Err(e) => Err(e),
        }
    }
}

} // verus!
