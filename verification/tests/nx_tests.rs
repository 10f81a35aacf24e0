use memmap2::{Mmap, MmapMut};
use nx::file::NxFile;
use nx::node::{Node, NxNode, NxNodeType};
use nx::NxError;

fn make_map(bytes: &[u8]) -> Mmap {
    let mut m = MmapMut::map_anon(bytes.len()).unwrap();
    m[..].copy_from_slice(bytes);
    m.make_read_only().unwrap()
}

fn push_u16(v: &mut Vec<u8>, x: u16) {
    v.extend_from_slice(&x.to_le_bytes());
}

fn push_u32(v: &mut Vec<u8>, x: u32) {
    v.extend_from_slice(&x.to_le_bytes());
}

fn push_u64(v: &mut Vec<u8>, x: u64) {
    v.extend_from_slice(&x.to_le_bytes());
}

/// One 20-byte node record.
fn push_node(v: &mut Vec<u8>, name: u32, children: u32, count: u16, tag: u16, data: u64) {
    push_u32(v, name);
    push_u32(v, children);
    push_u16(v, count);
    push_u16(v, tag);
    push_u64(v, data);
}

/// Builds a whole file: header, node table, string table, bitmap table.
///
/// Node records are given as (name, children, count, tag, data); strings as
/// raw payload bytes (length-prefixed on write); bitmaps as compressed
/// payload bytes (length-prefixed on write). Header counts are taken from
/// the table sizes unless overridden by `counts`.
fn build_file(
    nodes: &[(u32, u32, u16, u16, u64)],
    strings: &[&[u8]],
    bitmaps: &[&[u8]],
    counts: Option<(u32, u32, u32, u32)>,
) -> Vec<u8> {
    let node_offset = 52u64;
    let string_offset = node_offset + nodes.len() as u64 * 20;
    let string_payloads = string_offset + strings.len() as u64 * 8;
    let mut payloads: Vec<u8> = Vec::new();
    let mut string_entry_offsets: Vec<u64> = Vec::new();
    for s in strings {
        string_entry_offsets.push(string_payloads + payloads.len() as u64);
        push_u16(&mut payloads, s.len() as u16);
        payloads.extend_from_slice(s);
    }
    let bitmap_offset = string_payloads + payloads.len() as u64;
    let bitmap_payloads = bitmap_offset + bitmaps.len() as u64 * 8;
    let mut bpayloads: Vec<u8> = Vec::new();
    let mut bitmap_entry_offsets: Vec<u64> = Vec::new();
    for b in bitmaps {
        bitmap_entry_offsets.push(bitmap_payloads + bpayloads.len() as u64);
        push_u32(&mut bpayloads, b.len() as u32);
        bpayloads.extend_from_slice(b);
    }
    let (nc, sc, bc, ac) = counts.unwrap_or((
        nodes.len() as u32,
        strings.len() as u32,
        bitmaps.len() as u32,
        0,
    ));

    let mut v: Vec<u8> = Vec::new();
    push_u32(&mut v, 0x34474B50);
    push_u32(&mut v, nc);
    push_u64(&mut v, node_offset);
    push_u32(&mut v, sc);
    push_u64(&mut v, string_offset);
    push_u32(&mut v, bc);
    push_u64(&mut v, bitmap_offset);
    push_u32(&mut v, ac);
    push_u64(&mut v, bitmap_payloads + bpayloads.len() as u64);
    assert_eq!(v.len(), 52);
    for &(name, children, count, tag, data) in nodes {
        push_node(&mut v, name, children, count, tag, data);
    }
    for off in string_entry_offsets {
        push_u64(&mut v, off);
    }
    v.extend_from_slice(&payloads);
    for off in bitmap_entry_offsets {
        push_u64(&mut v, off);
    }
    v.extend_from_slice(&bpayloads);
    v
}

/// A small tree: root with three children sorted by name, the first child
/// with one child of its own.
///
/// Strings: 0 "root", 1 "alpha", 2 "beta", 3 "gamma", 4 "leaf".
/// Nodes: 0 root (children 1..=3), 1 alpha (child 4), 2 beta, 3 gamma, 4 leaf.
fn tree_bytes() -> Vec<u8> {
    build_file(
        &[
            (0, 1, 3, 0, 0),
            (1, 4, 1, 0, 0),
            (2, 0, 0, 1, 77),
            (3, 0, 0, 0, 0),
            (4, 0, 0, 0, 0),
        ],
        &[b"root", b"alpha", b"beta", b"gamma", b"leaf"],
        &[],
        None,
    )
}

#[test]
fn open_file_with_invalid_header() {
    let mut bytes = tree_bytes();
    bytes[0] = b'X';
    let result = NxFile::from_map(make_map(&bytes));
    assert!(result.is_err());
    assert!(matches!(result.err().unwrap(), NxError::InvalidHeader));
}

#[test]
fn open_valid_file() {
    let bytes = build_file(
        &[(0, 0, 0, 0, 0)],
        &[b"root"],
        &[],
        Some((432, 227, 0, 0)),
    );
    let result = NxFile::from_map(make_map(&bytes));
    assert!(result.is_ok());

    let file = result.unwrap();
    assert_eq!(file.node_count(), 432);
    assert_eq!(file.string_count(), 227);
    assert_eq!(file.bitmap_count(), 0);
    assert_eq!(file.audio_count(), 0);
}

#[test]
fn open_truncated_header() {
    let bytes = tree_bytes();
    let result = NxFile::from_map(make_map(&bytes[..20]));
    assert!(matches!(result.err().unwrap(), NxError::InvalidHeader));
}

#[test]
fn root_record_out_of_bounds() {
    // A valid header whose node table lies past the end of the file.
    let mut bytes = tree_bytes();
    bytes.truncate(52);
    bytes[8..16].copy_from_slice(&10_000u64.to_le_bytes());
    let result = NxFile::from_map(make_map(&bytes));
    assert!(matches!(
        result.err().unwrap(),
        NxError::OutOfBoundsRange(10_000, 10_020)
    ));
}

/// A linear scan over the children, for comparison with binary search.
fn scan_for<'a>(node: &NxNode<'a>, name: &str) -> Option<String> {
    let mut it = node.iter().unwrap();
    while let Some(child) = it.next() {
        if child.name().unwrap() == name {
            return Some(child.name().unwrap().to_owned());
        }
    }
    None
}

#[test]
fn get_agrees_with_linear_scan() {
    let bytes = tree_bytes();
    let file = NxFile::from_map(make_map(&bytes)).unwrap();
    let root = file.root();
    for name in ["alpha", "beta", "gamma"] {
        let found = root.get(name).expect("present name must be found");
        assert_eq!(found.name().unwrap(), name);
        assert_eq!(scan_for(&root, name).unwrap(), name);
    }
    for name in ["", "aardvark", "delta", "zeta", "alphaa", "alph"] {
        assert!(root.get(name).is_none());
        assert!(scan_for(&root, name).is_none());
    }
}

#[test]
fn get_on_empty_sibling_array() {
    let bytes = tree_bytes();
    let file = NxFile::from_map(make_map(&bytes)).unwrap();
    let leaf = file.root().get("alpha").unwrap().get("leaf").unwrap();
    assert!(leaf.get("leaf").is_none());
    assert!(leaf.get("").is_none());
}

#[test]
fn get_through_option() {
    let bytes = tree_bytes();
    let file = NxFile::from_map(make_map(&bytes)).unwrap();
    let alpha = file.root().get("alpha");
    let leaf = alpha.get("leaf");
    assert_eq!(leaf.unwrap().name().unwrap(), "leaf");
    let missing = file.root().get("delta");
    assert!(missing.get("leaf").is_none());
    assert!(matches!(missing.bitmap(), Ok(None)));
}

#[test]
fn iter_yields_children_in_storage_order() {
    let bytes = tree_bytes();
    let file = NxFile::from_map(make_map(&bytes)).unwrap();
    let root = file.root();
    let mut it = root.iter().unwrap();
    assert_eq!(it.size_hint(), (3, Some(3)));
    let mut names: Vec<String> = Vec::new();
    while let Some(child) = it.next() {
        names.push(child.name().unwrap().to_owned());
    }
    assert_eq!(names, vec!["alpha", "beta", "gamma"]);
    assert!(it.next().is_none());
}

#[test]
fn iter_twice_yields_identical_sequences() {
    let bytes = tree_bytes();
    let file = NxFile::from_map(make_map(&bytes)).unwrap();
    let root = file.root();
    let mut first: Vec<String> = Vec::new();
    let mut it = root.iter().unwrap();
    while let Some(child) = it.next() {
        first.push(child.name().unwrap().to_owned());
    }
    let mut second: Vec<String> = Vec::new();
    let mut it2 = root.iter().unwrap();
    while let Some(child) = it2.next() {
        second.push(child.name().unwrap().to_owned());
    }
    assert_eq!(first.len(), 3);
    assert_eq!(first, second);
}

#[test]
fn iter_on_leaf_is_empty() {
    let bytes = tree_bytes();
    let file = NxFile::from_map(make_map(&bytes)).unwrap();
    let beta = file.root().get("beta").unwrap();
    let mut it = beta.iter().unwrap();
    assert_eq!(it.size_hint(), (0, Some(0)));
    assert!(it.next().is_none());
}

#[test]
fn node_name_and_type() {
    let bytes = tree_bytes();
    let file = NxFile::from_map(make_map(&bytes)).unwrap();
    let root = file.root();
    assert_eq!(root.name().unwrap(), "root");
    assert_eq!(root.data_type(), NxNodeType::Empty);
    let beta = root.get("beta").unwrap();
    assert_eq!(beta.data_type(), NxNodeType::Integer);
}

#[test]
fn node_type_from_tag() {
    assert_eq!(NxNodeType::from(0u16), NxNodeType::Empty);
    assert_eq!(NxNodeType::from(1u16), NxNodeType::Integer);
    assert_eq!(NxNodeType::from(2u16), NxNodeType::Float);
    assert_eq!(NxNodeType::from(3u16), NxNodeType::String);
    assert_eq!(NxNodeType::from(4u16), NxNodeType::Vector);
    assert_eq!(NxNodeType::from(5u16), NxNodeType::Bitmap);
    assert_eq!(NxNodeType::from(6u16), NxNodeType::Audio);
    assert_eq!(NxNodeType::from(99u16), NxNodeType::Invalid(99));
}

#[test]
fn name_with_invalid_utf8_bytes() {
    // String 1 holds bytes that are not valid UTF-8.
    let bytes = build_file(
        &[(0, 1, 1, 0, 0), (1, 0, 0, 0, 0)],
        &[b"root", &[0xFF, 0xFE, 0xFD]],
        &[],
        None,
    );
    let file = NxFile::from_map(make_map(&bytes)).unwrap();
    let mut it = file.root().iter().unwrap();
    let child = it.next().unwrap();
    assert!(matches!(child.name(), Err(NxError::InvalidString)));
    // the search does not find it under any UTF-8 name, and does not err
    assert!(file.root().get("anything").is_none());
}

#[test]
fn name_index_out_of_bounds() {
    // The root's name index points past the string table.
    let bytes = build_file(&[(7, 0, 0, 0, 0)], &[b"root"], &[], None);
    let file = NxFile::from_map(make_map(&bytes)).unwrap();
    match file.root().name() {
        Err(NxError::OutOfBoundsRange(_, _)) => {}
        other => panic!("expected an out-of-bounds error, got {:?}", other),
    }
}

/// The inline data word of a bitmap node: index, width and height packed
/// little-endian.
fn bitmap_data_word(index: u32, width: u16, height: u16) -> u64 {
    index as u64 | (width as u64) << 32 | (height as u64) << 48
}

#[test]
fn bitmap_roundtrip() {
    let pixels: Vec<u8> = (0u8..16).collect();
    let compressed = lz4_flex::compress(&pixels);
    let bytes = build_file(
        &[(0, 1, 1, 0, 0), (1, 0, 0, 5, bitmap_data_word(0, 2, 2))],
        &[b"root", b"pix"],
        &[&compressed],
        None,
    );
    let file = NxFile::from_map(make_map(&bytes)).unwrap();
    assert_eq!(file.bitmap_count(), 1);
    let pix = file.root().get("pix").unwrap();
    assert_eq!(pix.data_type(), NxNodeType::Bitmap);
    let bitmap = pix.bitmap().unwrap().unwrap();
    assert_eq!(bitmap.width, 2);
    assert_eq!(bitmap.height, 2);
    assert_eq!(bitmap.data.len(), 2 * 2 * 4);
    assert_eq!(bitmap.data, pixels);
}

#[test]
fn bitmap_on_other_type_is_none() {
    let bytes = tree_bytes();
    let file = NxFile::from_map(make_map(&bytes)).unwrap();
    let root = file.root();
    assert!(matches!(root.bitmap(), Ok(None)));
    let beta = root.get("beta").unwrap();
    assert!(matches!(beta.bitmap(), Ok(None)));
}

#[test]
fn bitmap_with_wrong_decompressed_size() {
    // 32 bytes of pixels, but the node claims 2x2 (16 bytes).
    let pixels: Vec<u8> = (0u8..32).collect();
    let compressed = lz4_flex::compress(&pixels);
    let bytes = build_file(
        &[(0, 1, 1, 0, 0), (1, 0, 0, 5, bitmap_data_word(0, 2, 2))],
        &[b"root", b"pix"],
        &[&compressed],
        None,
    );
    let file = NxFile::from_map(make_map(&bytes)).unwrap();
    let pix = file.root().get("pix").unwrap();
    assert!(matches!(pix.bitmap(), Err(NxError::Decompression)));
}

#[test]
fn bitmap_index_out_of_bounds() {
    // A bitmap node whose table index does not exist.
    let bytes = build_file(
        &[(0, 1, 1, 0, 0), (1, 0, 0, 5, bitmap_data_word(9, 2, 2))],
        &[b"root", b"pix"],
        &[],
        None,
    );
    let file = NxFile::from_map(make_map(&bytes)).unwrap();
    let pix = file.root().get("pix").unwrap();
    match pix.bitmap() {
        Err(NxError::OutOfBoundsRange(_, _)) => {}
        other => panic!("expected an out-of-bounds error, got {:?}", other),
    }
}

#[test]
fn typed_extraction() {
    // Children of the root, sorted by name: "flo" (float), "int" (integer),
    // "str" (string, pointing at "root"), "vec" (vector (-2, 3)).
    let float_bits = 0x400921FB54442D18u64;
    let vec_word = 0xFFFF_FFFEu64 | 3u64 << 32;
    let bytes = build_file(
        &[
            (0, 1, 4, 0, 0),
            (1, 0, 0, 2, float_bits),
            (2, 0, 0, 1, 0xFFFF_FFFF_FFFF_FFFF),
            (3, 0, 0, 3, 0),
            (4, 0, 0, 4, vec_word),
        ],
        &[b"root", b"flo", b"int", b"str", b"vec"],
        &[],
        None,
    );
    let file = NxFile::from_map(make_map(&bytes)).unwrap();
    let root = file.root();

    let int_node = root.get("int").unwrap();
    assert_eq!(int_node.integer(), Some(-1i64));
    assert_eq!(int_node.float_bits(), None);
    assert_eq!(int_node.vector(), None);
    assert!(matches!(int_node.string(), Ok(None)));

    let flo_node = root.get("flo").unwrap();
    assert_eq!(flo_node.float_bits(), Some(float_bits));
    assert_eq!(f64::from_bits(flo_node.float_bits().unwrap()), std::f64::consts::PI);
    assert_eq!(flo_node.integer(), None);

    let str_node = root.get("str").unwrap();
    assert_eq!(str_node.string().unwrap(), Some("root"));
    assert_eq!(str_node.integer(), None);

    let vec_node = root.get("vec").unwrap();
    assert_eq!(vec_node.vector(), Some((-2, 3)));
    assert!(matches!(vec_node.bitmap(), Ok(None)));
}

#[test]
fn string_resolution_has_declared_length() {
    // Each resolved name is valid UTF-8 of exactly the length its entry
    // declares.
    let bytes = tree_bytes();
    let file = NxFile::from_map(make_map(&bytes)).unwrap();
    let root = file.root();
    assert_eq!(root.name().unwrap().len(), 4);
    assert_eq!(root.get("alpha").unwrap().name().unwrap().len(), 5);
    assert_eq!(root.get("gamma").unwrap().name().unwrap().len(), 5);
}
