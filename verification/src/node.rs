//! Node records and tree navigation.

use core::cmp::Ordering;
use vstd::prelude::*;
use vstd::bytes::{u16_from_le_bytes, u32_from_le_bytes, u64_from_le_bytes};
use vstd::string::StringSliceAdditionalSpecFns;
use vstd::slice::slice_subrange;
use crate::file::{spec_get_bitmap, spec_get_str, spec_get_str_raw, spec_node_offset, NxFile};
use crate::order::{cmp_bytes, lemma_lex_lt_irrefl, lemma_lex_lt_trans, lex_le};
use crate::raw::{
    le16_at, le32_at, le64_at, lz4_block_decode, lz4_decompress, mmap_len, mmap_view, oob_err,
    try_get_bytes,
};
use crate::{NxBitmap, NxError};

verus! {

/// A node record's fixed stride in bytes.
pub const NX_NODE_OFFSET: u64 = 20;

/// The type of a node.
#[derive(PartialEq, Eq, Structural, Clone, Copy, Debug)]
pub enum NxNodeType {
    Empty,
    Integer,
    Float,
    String,
    Vector,
    Bitmap,
    Audio,
    Invalid(u16),
}

/// The node type that a record's raw tag denotes.
pub open spec fn spec_type_of(value: u16) -> NxNodeType {
    if value == 0 {
        NxNodeType::Empty
    } else if value == 1 {
        NxNodeType::Integer
    } else if value == 2 {
        NxNodeType::Float
    } else if value == 3 {
        NxNodeType::String
    } else if value == 4 {
        NxNodeType::Vector
    } else if value == 5 {
        NxNodeType::Bitmap
    } else if value == 6 {
        NxNodeType::Audio
    } else {
        NxNodeType::Invalid(value)
    }
}

impl From<u16> for NxNodeType {
    fn from(value: u16) -> (r: Self) {
        match value {
            0 => Self::Empty,
            1 => Self::Integer,
            2 => Self::Float,
            3 => Self::String,
            4 => Self::Vector,
            5 => Self::Bitmap,
            6 => Self::Audio,
            _ => Self::Invalid(value),
        }
    }
}

impl vstd::std_specs::convert::FromSpecImpl<u16> for NxNodeType {
    open spec fn obeys_from_spec() -> bool {
        true
    }

    open spec fn from_spec(value: u16) -> Self {
        spec_type_of(value)
    }
}

/// A decoded 20-byte node record, together with the absolute byte offset it
/// was read from.
#[derive(Clone, Copy, Debug)]
pub struct NxNodeData {
    /// The absolute byte offset this record was decoded from.
    pub index: u64,
    /// String-table index of the node's name.
    pub name: u32,
    /// Node-table index of the first child.
    pub children: u32,
    /// Number of children, stored contiguously from `children`.
    pub count: u16,
    /// The node's type tag.
    pub data_type: NxNodeType,
    /// The inline data word, interpreted per `data_type`.
    pub data: u64,
}

/// The node record stored at byte offset `off` of `v`; meaningful when
/// `off + 20 <= v.len()`.
pub open spec fn rec_at(v: Seq<u8>, off: int) -> NxNodeData {
    NxNodeData {
        index: off as u64,
        name: le32_at(v, off),
        children: le32_at(v, off + 4),
        count: le16_at(v, off + 8),
        data_type: spec_type_of(le16_at(v, off + 10)),
        data: le64_at(v, off + 12),
    }
}

/// Decodes the 20-byte node record at absolute byte offset `index`.
pub(crate) fn try_get_node_data(m: &memmap2::Mmap, index: u64) -> (r: Result<NxNodeData, NxError>)
    ensures
        r is Ok <==> index + 20 <= mmap_view(m).len(),
        r matches Ok(d) ==> d == rec_at(mmap_view(m), index as int),
        r matches Err(e) ==> e == oob_err(index as int, index + 20),
{
    let b = match try_get_bytes(m, index, 20) {
        Ok(b) => b,
        Err(e) => return Err(e),
    };
    let name = u32_from_le_bytes(slice_subrange(b, 0, 4));
    let children = u32_from_le_bytes(slice_subrange(b, 4, 8));
    let count = u16_from_le_bytes(slice_subrange(b, 8, 10));
    let tag = u16_from_le_bytes(slice_subrange(b, 10, 12));
    let data = u64_from_le_bytes(slice_subrange(b, 12, 20));
    proof {
        let v = mmap_view(m);
        let i = index as int;
        assert(b@.subrange(0, 4) =~= v.subrange(i, i + 4));
        assert(b@.subrange(4, 8) =~= v.subrange(i + 4, i + 8));
        assert(b@.subrange(8, 10) =~= v.subrange(i + 8, i + 10));
        assert(b@.subrange(10, 12) =~= v.subrange(i + 10, i + 12));
        assert(b@.subrange(12, 20) =~= v.subrange(i + 12, i + 20));
    }
    Ok(NxNodeData { index, name, children, count, data_type: NxNodeType::from(tag), data })
}

// ---------------------------------------------------------------------------
// Sibling arrays.
//
// A node's children occupy `count` contiguous slots of the node table,
// starting at slot `children`; a well-formed file stores each such run
// sorted by resolved name. Nothing verifies that a file is well formed:
// lookups over an unsorted run may miss, but never err.
// ---------------------------------------------------------------------------

/// Absolute byte offset of the record in slot `children + k` of the node
/// table.
pub open spec fn child_slot_off(v: Seq<u8>, children: int, k: int) -> int {
    spec_node_offset(v) + (children + k) * 20
}

/// The record in slot `children + k` lies within the mapped range.
pub open spec fn child_in_bounds(v: Seq<u8>, children: int, k: int) -> bool {
    child_slot_off(v, children, k) + 20 <= v.len()
}

/// The record in slot `children + k`.
pub open spec fn child_rec(v: Seq<u8>, children: int, k: int) -> NxNodeData {
    rec_at(v, child_slot_off(v, children, k))
}

/// The record in slot `children + k` lies in range and its name resolves
/// through the string table.
pub open spec fn child_name_ok(v: Seq<u8>, children: int, k: int) -> bool {
    child_in_bounds(v, children, k) && spec_get_str_raw(v, child_rec(v, children, k).name as int)
        is Ok
}

/// The name bytes of the record in slot `children + k`.
pub open spec fn child_name(v: Seq<u8>, children: int, k: int) -> Seq<u8> {
    spec_get_str_raw(v, child_rec(v, children, k).name as int)->Ok_0
}

/// Every record of the run lies in range and has a resolvable name.
pub open spec fn run_resolvable(v: Seq<u8>, children: int, count: int) -> bool {
    forall|k: int| 0 <= k < count ==> #[trigger] child_name_ok(v, children, k)
}

/// The run's names are sorted, lexicographically by their bytes.
pub open spec fn run_sorted(v: Seq<u8>, children: int, count: int) -> bool {
    forall|i: int, j: int|
        0 <= i <= j < count ==> lex_le(
            #[trigger] child_name(v, children, i),
            #[trigger] child_name(v, children, j),
        )
}

/// Law: advancing one stride at a time from the first child's slot visits
/// exactly the run's slots in storage order: `i` strides from slot 0 land
/// on slot `i`. With `iter`'s and `next`'s contracts this makes an
/// iterator over a node with `count` children in range yield exactly those
/// `count` records in storage order — and, the start and count being fixed
/// by the node alone, any two iterators over the same node yield identical
/// sequences.
pub proof fn lemma_iter_visits_run(v: Seq<u8>, children: int, i: int)
    ensures
        child_slot_off(v, children, 0) + 20 * i == child_slot_off(v, children, i),
{
}

/// The slot a linear scan of `[k, count)` would stop at: the first one
/// whose name resolves to `tb`.
pub open spec fn linear_find_from(
    v: Seq<u8>,
    children: int,
    count: int,
    tb: Seq<u8>,
    k: int,
) -> Option<int>
    decreases count - k,
{
    if k < 0 || k >= count {
        None
    } else if child_name_ok(v, children, k) && child_name(v, children, k) == tb {
        Some(k)
    } else {
        linear_find_from(v, children, count, tb, k + 1)
    }
}

/// The slot a linear scan of the whole run would find for name `tb`.
pub open spec fn linear_find(v: Seq<u8>, children: int, count: int, tb: Seq<u8>) -> Option<int> {
    linear_find_from(v, children, count, tb, 0)
}

proof fn lemma_linear_find_from_exists(v: Seq<u8>, children: int, count: int, tb: Seq<u8>, k: int)
    requires
        0 <= k <= count,
    ensures
        linear_find_from(v, children, count, tb, k) is Some <==> exists|j: int|
            k <= j < count && #[trigger] child_name_ok(v, children, j) && child_name(
                v,
                children,
                j,
            ) == tb,
        linear_find_from(v, children, count, tb, k) matches Some(j) ==> k <= j < count
            && child_name_ok(v, children, j) && child_name(v, children, j) == tb,
    decreases count - k,
{
    if k < count {
        lemma_linear_find_from_exists(v, children, count, tb, k + 1);
    }
}

/// Law: a linear scan of a sibling array finds a slot for a name exactly
/// when some slot of the run resolves to that name. Together with `get`'s
/// contract, a lookup therefore returns a node exactly when a linear scan
/// over a resolvable, sorted run would find one — and `None` when the name
/// is absent or the run is empty.
pub proof fn lemma_get_agrees_with_linear_scan(
    v: Seq<u8>,
    children: int,
    count: int,
    tb: Seq<u8>,
)
    requires
        count >= 0,
    ensures
        linear_find(v, children, count, tb) is Some <==> exists|j: int|
            0 <= j < count && #[trigger] child_name_ok(v, children, j) && child_name(
                v,
                children,
                j,
            ) == tb,
        linear_find(v, children, count, tb) matches Some(j) ==> 0 <= j < count && child_name_ok(
            v,
            children,
            j,
        ) && child_name(v, children, j) == tb,
{
    lemma_linear_find_from_exists(v, children, count, tb, 0);
}

/// A node in an NX file.
pub struct NxNode<'a> {
    pub(crate) data: NxNodeData,
    pub(crate) file: &'a NxFile,
}

impl<'a> NxNode<'a> {
    /// The record this node was decoded from.
    pub closed spec fn rec(self) -> NxNodeData {
        self.data
    }

    /// The mapped bytes of the file this node belongs to.
    pub closed spec fn file_view(self) -> Seq<u8> {
        self.file@
    }

    pub(crate) fn make(data: NxNodeData, file: &'a NxFile) -> (r: Self)
        ensures
            r.rec() == data,
            r.file_view() == file@,
    {
        NxNode { data, file }
    }

    /// Gets a node with the given name starting from the current node.
    ///
    /// Binary search over the node's sibling array, comparing resolved name
    /// bytes. A match is always genuine; completeness — a `None` answer
    /// really means no child has the name — holds when the run is in range,
    /// resolvable and sorted, which a well-formed file guarantees. Decode
    /// failures degrade to `None`, never to an error.
    pub fn get(&self, name: &str) -> (r: Option<NxNode<'a>>)
        ensures
            r matches Some(n) ==> ({
                &&& n.file_view() == self.file_view()
                &&& exists|k: int|
                    0 <= k < self.rec().count && #[trigger] child_name_ok(
                        self.file_view(),
                        self.rec().children as int,
                        k,
                    ) && child_name(self.file_view(), self.rec().children as int, k)
                        == name.spec_bytes() && n.rec() == child_rec(
                        self.file_view(),
                        self.rec().children as int,
                        k,
                    )
            }),
            (r is None && run_resolvable(
                self.file_view(),
                self.rec().children as int,
                self.rec().count as int,
            ) && run_sorted(
                self.file_view(),
                self.rec().children as int,
                self.rec().count as int,
            )) ==> forall|k: int|
                0 <= k < self.rec().count ==> #[trigger] child_name(
                    self.file_view(),
                    self.rec().children as int,
                    k,
                ) != name.spec_bytes(),
    {
        proof {
            use_type_invariant(&*self.file);
            crate::file::lemma_file_view(self.file);
        }
        let ghost vv = self.file_view();
        let children = self.data.children;
        let cnt0 = self.data.count;
        let target = name.as_bytes();
        let mut lo: u64 = 0;
        let mut n: u64 = cnt0 as u64;
        while n > 0
            invariant
                lo + n <= cnt0,
                vv == self.file_view(),
                self.file@ == vv,
                self.file.wf(),
                mmap_view(&self.file.data) == vv,
                children == self.rec().children,
                cnt0 == self.rec().count,
                target@ == name.spec_bytes(),
                (run_resolvable(vv, children as int, cnt0 as int) && run_sorted(
                    vv,
                    children as int,
                    cnt0 as int,
                )) ==> forall|k: int|
                    0 <= k < cnt0 && !(lo <= k < lo + n) ==> #[trigger] child_name(
                        vv,
                        children as int,
                        k,
                    ) != name.spec_bytes(),
            decreases n,
        {
            let mid = n / 2;
            let ghost m = (lo + mid) as int;
            let ghost ch = children as int;
            let ghost cnt = cnt0 as int;
            let ghost tb = name.spec_bytes();
            let slot: u64 = children as u64 + lo + mid;
            let rel: u64 = slot * NX_NODE_OFFSET;
            let no = self.file.header.node_offset;
            if no > u64::MAX - rel {
                proof {
                    assert(!child_in_bounds(vv, ch, m));
                    assert(!run_resolvable(vv, ch, cnt)) by {
                        if run_resolvable(vv, ch, cnt) {
                            assert(child_name_ok(vv, ch, m));
                        }
                    }
                }
                return None;
            }
            let probe_off = no + rel;
            proof {
                assert(probe_off == child_slot_off(vv, ch, m));
            }
            let current = match try_get_node_data(&self.file.data, probe_off) {
                Ok(d) => d,
                Err(_) => {
                    proof {
                        assert(!child_in_bounds(vv, ch, m));
                        assert(!run_resolvable(vv, ch, cnt)) by {
                            if run_resolvable(vv, ch, cnt) {
                                assert(child_name_ok(vv, ch, m));
                            }
                        }
                    }
                    return None;
                },
            };
            proof {
                assert(current == child_rec(vv, ch, m));
            }
            let current_name = match self.file.get_str_bytes(current.name) {
                Ok(b) => b,
                Err(_) => {
                    proof {
                        assert(!child_name_ok(vv, ch, m));
                        assert(!run_resolvable(vv, ch, cnt)) by {
                            if run_resolvable(vv, ch, cnt) {
                                assert(child_name_ok(vv, ch, m));
                            }
                        }
                    }
                    return None;
                },
            };
            proof {
                assert(current_name@ == child_name(vv, ch, m));
            }
            match cmp_bytes(current_name, target) {
                Ordering::Less => {
                    proof {
                        if run_resolvable(vv, ch, cnt) && run_sorted(vv, ch, cnt) {
                            assert forall|k: int| lo <= k <= m implies #[trigger] child_name(
                                vv,
                                ch,
                                k,
                            ) != tb by {
                                assert(lex_le(child_name(vv, ch, k), child_name(vv, ch, m)));
                                if child_name(vv, ch, k) == tb {
                                    if child_name(vv, ch, k) == child_name(vv, ch, m) {
                                        lemma_lex_lt_irrefl(tb);
                                    } else {
                                        lemma_lex_lt_trans(
                                            child_name(vv, ch, k),
                                            child_name(vv, ch, m),
                                            tb,
                                        );
                                        lemma_lex_lt_irrefl(tb);
                                    }
                                }
                            }
                        }
                    }
                    lo = lo + mid + 1;
                    n = n - (mid + 1);
                },
                Ordering::Equal => {
                    proof {
                        assert(child_name_ok(vv, ch, m));
                        assert(child_name(vv, ch, m) == tb);
                        assert(0 <= m < cnt);
                    }
                    return Some(NxNode { data: current, file: self.file });
                },
                Ordering::Greater => {
                    proof {
                        if run_resolvable(vv, ch, cnt) && run_sorted(vv, ch, cnt) {
                            assert forall|k: int| m <= k < lo + n implies #[trigger] child_name(
                                vv,
                                ch,
                                k,
                            ) != tb by {
                                assert(lex_le(child_name(vv, ch, m), child_name(vv, ch, k)));
                                if child_name(vv, ch, k) == tb {
                                    if child_name(vv, ch, m) == child_name(vv, ch, k) {
                                        lemma_lex_lt_irrefl(tb);
                                    } else {
                                        lemma_lex_lt_trans(
                                            tb,
                                            child_name(vv, ch, m),
                                            child_name(vv, ch, k),
                                        );
                                        lemma_lex_lt_irrefl(tb);
                                    }
                                }
                            }
                        }
                    }
                    n = mid;
                },
            }
        }
        None
    }

    /// Gets the name of the node.
    pub fn name(&self) -> (r: Result<&'a str, NxError>)
        ensures
            r is Ok <==> spec_get_str(self.file_view(), self.rec().name as int) is Ok,
            r matches Ok(s) ==> s.spec_bytes() == spec_get_str(
                self.file_view(),
                self.rec().name as int,
            )->Ok_0,
            r matches Err(e) ==> e == spec_get_str(self.file_view(), self.rec().name as int)->Err_0,
    {
        self.file.get_str(self.data.name)
    }

    /// Gets the data type of the node.
    pub fn data_type(&self) -> (r: NxNodeType)
        ensures
            r == self.rec().data_type,
    {
        self.data.data_type
    }

    /// Gets a bitmap from a node.
    ///
    /// For a node of bitmap type the inline data word holds a bitmap-table
    /// index and the pixel dimensions; the compressed payload it points to
    /// must decompress to exactly `width * height * 4` bytes. Any other
    /// node type yields `None`, never an error.
    pub fn bitmap(&self) -> (r: Result<Option<NxBitmap>, NxError>)
        ensures
            self.rec().data_type != NxNodeType::Bitmap ==> (r matches Ok(o) && o is None),
            self.rec().data_type == NxNodeType::Bitmap ==> ({
                let v = self.file_view();
                let d = self.rec().data;
                let w = spec_bitmap_width(d);
                let h = spec_bitmap_height(d);
                let target = (w as int) * (h as int) * 4;
                match spec_get_bitmap(v, spec_bitmap_index(d) as int) {
                    Err(e) => r matches Err(x) && x == e,
                    Ok(comp) => match lz4_block_decode(comp) {
                        Some(dd) => if target <= usize::MAX && dd.len() == target {
                            r matches Ok(o) && o matches Some(b) && b.width == w && b.height == h
                                && b.data@ == dd
                        } else {
                            r matches Err(x) && x == NxError::Decompression
                        },
                        None => r matches Err(x) && x == NxError::Decompression,
                    },
                }
            }),
    {
        match self.data.data_type {
            NxNodeType::Bitmap => {
                // The data word packs [index: u32][width: u16][height: u16],
                // little-endian.
                let d = self.data.data;
                let index = (d % 0x1_0000_0000) as u32;
                let width = ((d / 0x1_0000_0000) % 0x1_0000) as u16;
                let height = ((d / 0x1_0000_0000_0000) % 0x1_0000) as u16;
                let comp = match self.file.get_bitmap(index) {
                    Ok(b) => b,
                    Err(e) => return Err(e),
                };
                proof {
                    assert((width as int) * (height as int) <= 0xFFFF * 0xFFFF)
                        by (nonlinear_arith)
                        requires
                            width <= 0xFFFF,
                            height <= 0xFFFF,
                    ;
                }
                let target64: u64 = (width as u64) * (height as u64) * 4;
                if target64 > usize::MAX as u64 {
                    return Err(NxError::Decompression);
                }
                let target = target64 as usize;
                match lz4_decompress(comp, target) {
                    Some(data) => {
                        if data.len() == target {
                            Ok(Some(NxBitmap { width, height, data }))
                        } else {
                            Err(NxError::Decompression)
                        }
                    },
                    None => Err(NxError::Decompression),
                }
            },
            _ => Ok(None),
        }
    }

    /// Gets the integer a node of integer type holds: the inline data word
    /// read as a signed 64-bit value. Any other node type yields `None`.
    pub fn integer(&self) -> (r: Option<i64>)
        ensures
            self.rec().data_type == NxNodeType::Integer ==> r == Some(self.rec().data as i64),
            self.rec().data_type != NxNodeType::Integer ==> r is None,
    {
        match self.data.data_type {
            NxNodeType::Integer => Some(self.data.data as i64),
            _ => None,
        }
    }

    /// Gets the raw bits of the 64-bit floating-point value a node of float
    /// type holds. This crate performs no floating-point arithmetic; the
    /// caller reinterprets the bits. Any other node type yields `None`.
    pub fn float_bits(&self) -> (r: Option<u64>)
        ensures
            self.rec().data_type == NxNodeType::Float ==> r == Some(self.rec().data),
            self.rec().data_type != NxNodeType::Float ==> r is None,
    {
        match self.data.data_type {
            NxNodeType::Float => Some(self.data.data),
            _ => None,
        }
    }

    /// Gets the string a node of string type refers to: the low 32 bits of
    /// the data word are a string-table index, resolved like a name. Any
    /// other node type yields `None`, never an error.
    pub fn string(&self) -> (r: Result<Option<&'a str>, NxError>)
        ensures
            self.rec().data_type != NxNodeType::String ==> (r matches Ok(o) && o is None),
            self.rec().data_type == NxNodeType::String ==> ({
                match spec_get_str(self.file_view(), spec_string_index(self.rec().data) as int) {
                    Ok(b) => r matches Ok(o) && o matches Some(s) && s.spec_bytes() == b,
                    Err(e) => r matches Err(x) && x == e,
                }
            }),
    {
        match self.data.data_type {
            NxNodeType::String => {
                let index = (self.data.data % 0x1_0000_0000) as u32;
                match self.file.get_str(index) {
                    Ok(s) => Ok(Some(s)),
                    Err(e) => Err(e),
                }
            },
            _ => Ok(None),
        }
    }

    /// Gets the point a node of vector type holds: the data word split into
    /// two signed 32-bit components, x in the low half and y in the high
    /// half. Any other node type yields `None`.
    pub fn vector(&self) -> (r: Option<(i32, i32)>)
        ensures
            self.rec().data_type == NxNodeType::Vector ==> r == Some(
                (spec_vector_x(self.rec().data), spec_vector_y(self.rec().data)),
            ),
            self.rec().data_type != NxNodeType::Vector ==> r is None,
    {
        match self.data.data_type {
            NxNodeType::Vector => {
                let x = (self.data.data % 0x1_0000_0000) as u32;
                let y = (self.data.data / 0x1_0000_0000) as u32;
                Some((x as i32, y as i32))
            },
            _ => None,
        }
    }

    /// Gets an iterator over the node's children.
    ///
    /// The iterator yields the node's `count` children in storage order,
    /// each one decoded on demand. Every call starts fresh from the first
    /// child; when even the first child's record lies outside the mapped
    /// range the iteration is empty rather than an error.
    pub fn iter(&self) -> (r: Result<NxNodeIterator<'a>, NxError>)
        ensures
            r is Ok,
            r matches Ok(it) ==> ({
                let first = child_slot_off(self.file_view(), self.rec().children as int, 0);
                &&& it.file_view() == self.file_view()
                &&& if first + 20 <= self.file_view().len() {
                    it.spec_index() == first && it.spec_count() == self.rec().count
                } else {
                    it.spec_count() == 0
                }
            }),
    {
        proof {
            use_type_invariant(&*self.file);
            crate::file::lemma_file_view(self.file);
        }
        let rel: u64 = (self.data.children as u64) * NX_NODE_OFFSET;
        let no = self.file.header.node_offset;
        if no > u64::MAX - rel {
            return Ok(NxNodeIterator { file: self.file, index: 0, count: 0 });
        }
        let first = no + rel;
        let len = mmap_len(&self.file.data) as u64;
        if len < 20 || first > len - 20 {
            return Ok(NxNodeIterator { file: self.file, index: 0, count: 0 });
        }
        Ok(NxNodeIterator { file: self.file, index: first, count: self.data.count })
    }
}

/// The bitmap-table index packed in a bitmap node's data word.
pub open spec fn spec_bitmap_index(d: u64) -> u32 {
    (d % 0x1_0000_0000) as u32
}

/// The pixel width packed in a bitmap node's data word.
pub open spec fn spec_bitmap_width(d: u64) -> u16 {
    ((d / 0x1_0000_0000) % 0x1_0000) as u16
}

/// The pixel height packed in a bitmap node's data word.
pub open spec fn spec_bitmap_height(d: u64) -> u16 {
    ((d / 0x1_0000_0000_0000) % 0x1_0000) as u16
}

/// The string-table index in the low half of a string node's data word.
pub open spec fn spec_string_index(d: u64) -> u32 {
    (d % 0x1_0000_0000) as u32
}

/// The x component in the low half of a vector node's data word.
pub open spec fn spec_vector_x(d: u64) -> i32 {
    (d % 0x1_0000_0000) as i32
}

/// The y component in the high half of a vector node's data word.
pub open spec fn spec_vector_y(d: u64) -> i32 {
    ((d / 0x1_0000_0000) % 0x1_0000_0000) as i32
}

/// A node iterator: a cursor over a node's children, decoded on demand.
pub struct NxNodeIterator<'a> {
    file: &'a NxFile,
    index: u64,
    count: u16,
}

impl<'a> NxNodeIterator<'a> {
    /// The mapped bytes of the file this iterator walks.
    pub closed spec fn file_view(self) -> Seq<u8> {
        self.file@
    }

    /// Absolute byte offset of the next child record.
    pub closed spec fn spec_index(self) -> u64 {
        self.index
    }

    /// How many children have not been yielded yet.
    pub closed spec fn spec_count(self) -> u16 {
        self.count
    }

    /// Exact bounds on how many children remain.
    pub fn size_hint(&self) -> (r: (usize, Option<usize>))
        ensures
            r.0 == self.spec_count(),
            r.1 == Some(self.spec_count() as usize),
    {
        (self.count as usize, Some(self.count as usize))
    }

    /// The next child in storage order: the record at the cursor, with the
    /// cursor advanced one stride. A record that falls outside the mapped
    /// range ends the iteration early instead of erring.
    pub fn next(&mut self) -> (r: Option<NxNode<'a>>)
        ensures
            final(self).file_view() == old(self).file_view(),
            old(self).spec_count() == 0 ==> r is None && *final(self) == *old(self),
            old(self).spec_count() > 0 && old(self).spec_index() + 20 <= old(
                self,
            ).file_view().len() ==> ({
                &&& r matches Some(nd) && nd.file_view() == old(self).file_view() && nd.rec()
                    == rec_at(old(self).file_view(), old(self).spec_index() as int)
                &&& final(self).spec_count() == old(self).spec_count() - 1
                &&& final(self).spec_index() == old(self).spec_index() + 20
            }),
            old(self).spec_count() > 0 && old(self).spec_index() + 20 > old(
                self,
            ).file_view().len() ==> r is None && final(self).spec_count() == 0,
    {
        proof {
            use_type_invariant(&*self.file);
            crate::file::lemma_file_view(self.file);
        }
        if self.count == 0 {
            return None;
        }
        match try_get_node_data(&self.file.data, self.index) {
            Ok(d) => {
                self.count = self.count - 1;
                self.index = self.index + NX_NODE_OFFSET;
                Some(NxNode { data: d, file: self.file })
            },
            Err(_) => {
                self.count = 0;
                None
            },
        }
    }
}

/// Named lookup and bitmap extraction, shared by nodes and optional nodes
/// so that lookups chain without unwrapping.
pub trait Node {
    /// Gets a node with the given name starting from the current node.
    fn get(&self, name: &str) -> Option<NxNode>;

    /// Gets a bitmap from a node.
    fn bitmap(&self) -> Result<Option<NxBitmap>, NxError>;
}

impl<'a> Node for NxNode<'a> {
    fn get(&self, name: &str) -> Option<NxNode> {
        NxNode::get(self, name)
    }

    fn bitmap(&self) -> Result<Option<NxBitmap>, NxError> {
        NxNode::bitmap(self)
    }
}

impl<'a> Node for Option<NxNode<'a>> {
    fn get(&self, name: &str) -> Option<NxNode> {
        match self {
            Some(node) => NxNode::get(node, name),
            None => None,
        }
    }

    fn bitmap(&self) -> Result<Option<NxBitmap>, NxError> {
        match self {
            Some(node) => NxNode::bitmap(node),
            None => Ok(None),
        }
    }
}

} // verus!
