use libdoodle::blocks::BlockMap;
use libdoodle::bpk1::{
    bytes_from_bpk1_blocks, decode_blocks, has_bpk1_magic, name_is_valid, parse_blocks, BPK1Block,
    BPK1Error, BuildError,
};
use libdoodle::reader::{name_until_nul, ByteCursor, ReadExt};

fn block(name: &str, data: &[u8]) -> BPK1Block {
    BPK1Block { name: name.as_bytes().to_vec(), data: data.to_vec() }
}

fn views(blocks: &[BPK1Block]) -> Vec<(Vec<u8>, Vec<u8>)> {
    blocks.iter().map(|b| (b.name.clone(), b.data.clone())).collect()
}

fn never_called(_: &[u8]) -> Option<Vec<u8>> {
    panic!("input with the magic was handed to the decompressor")
}

fn le32(b: &[u8], at: usize) -> u32 {
    u32::from_le_bytes([b[at], b[at + 1], b[at + 2], b[at + 3]])
}

#[test]
fn round_trip_keeps_names_payloads_and_order() {
    let blocks = vec![
        block("SHEET1", &[1, 2, 3]),
        block("THUMB2", &[]),
        block("SHEET1", &[9; 40]),
        block("ABCDEFGH", &[7]),
    ];
    let bytes = bytes_from_bpk1_blocks(&blocks).unwrap();
    let back = parse_blocks(&bytes).unwrap();
    assert_eq!(views(&back), views(&blocks));
}

#[test]
fn round_trip_of_no_blocks() {
    let bytes = bytes_from_bpk1_blocks(&[]).unwrap();
    assert_eq!(bytes.len(), 0x40);
    assert!(parse_blocks(&bytes).unwrap().is_empty());
}

#[test]
fn encoded_layout() {
    let blocks = vec![block("AB", &[1, 2, 3]), block("C", &[4, 5])];
    let bytes = bytes_from_bpk1_blocks(&blocks).unwrap();
    assert_eq!(&bytes[0..4], b"BPK1");
    assert_eq!(le32(&bytes, 4), 2);
    assert!(bytes[8..0x40].iter().all(|&b| b == 0));
    let first = 0x40 + 2 * 20;
    assert_eq!(le32(&bytes, 0x40), first as u32);
    assert_eq!(le32(&bytes, 0x44), 3);
    assert_eq!(le32(&bytes, 0x48), 0);
    assert_eq!(&bytes[0x4c..0x54], &[b'A', b'B', 0, 0, 0, 0, 0, 0]);
    assert_eq!(le32(&bytes, 0x54), first as u32 + 3);
    assert_eq!(le32(&bytes, 0x58), 2);
    assert_eq!(&bytes[first..], &[1, 2, 3, 4, 5]);
}

#[test]
fn builder_rejects_bad_names() {
    assert_eq!(bytes_from_bpk1_blocks(&[block("NINECHARS", &[])]).err(), Some(BuildError::InvalidName));
    let nul = BPK1Block { name: vec![b'A', 0, b'B'], data: vec![] };
    assert_eq!(bytes_from_bpk1_blocks(&[nul]).err(), Some(BuildError::InvalidName));
    assert!(name_is_valid(b"EIGHTCHR"));
    assert!(!name_is_valid(b"A\0"));
}

#[test]
fn bad_magic() {
    assert_eq!(parse_blocks(b"BPK2").err(), Some(BPK1Error::BadMagic));
    assert_eq!(parse_blocks(b"BP").err(), Some(BPK1Error::BadMagic));
    assert_eq!(parse_blocks(&[]).err(), Some(BPK1Error::BadMagic));
    assert!(has_bpk1_magic(b"BPK1rest"));
    assert!(!has_bpk1_magic(b"bpk1"));
}

#[test]
fn truncated_header_and_directory() {
    let mut bytes = bytes_from_bpk1_blocks(&[block("A", &[1])]).unwrap();
    assert_eq!(parse_blocks(&bytes[..0x3f]).err(), Some(BPK1Error::Truncated));
    bytes[4] = 3;
    assert_eq!(parse_blocks(&bytes).err(), Some(BPK1Error::Truncated));
}

#[test]
fn payload_outside_the_buffer() {
    let mut bytes = bytes_from_bpk1_blocks(&[block("A", &[1, 2])]).unwrap();
    bytes[0x44] = 3;
    assert_eq!(parse_blocks(&bytes).err(), Some(BPK1Error::BlockOutOfBounds));
    bytes[0x44] = 2;
    bytes[0x40] = 0xff;
    assert_eq!(parse_blocks(&bytes).err(), Some(BPK1Error::BlockOutOfBounds));
}

#[test]
fn directory_order_is_kept() {
    let blocks = vec![block("FIRST", &[1]), block("SECOND", &[2])];
    let mut bytes = bytes_from_bpk1_blocks(&blocks).unwrap();
    let (a, b) = (le32(&bytes, 0x40), le32(&bytes, 0x54));
    bytes[0x40..0x44].copy_from_slice(&b.to_le_bytes());
    bytes[0x54..0x58].copy_from_slice(&a.to_le_bytes());
    let back = parse_blocks(&bytes).unwrap();
    assert_eq!(back[0].name, b"FIRST");
    assert_eq!(back[0].data, vec![2]);
    assert_eq!(back[1].name, b"SECOND");
    assert_eq!(back[1].data, vec![1]);
}

#[test]
fn names_without_terminator() {
    assert_eq!(name_until_nul(b"ABCDEFGH"), b"ABCDEFGH");
    assert_eq!(name_until_nul(b"AB\0DEF\0\0"), b"AB");
    assert_eq!(name_until_nul(b"\0BCDEFGH"), b"");
}

#[test]
fn cursor_reads() {
    let data = [1u8, 2, 3, 4, 5, b'a', b'b', 0, b'c', 9];
    let mut c = ByteCursor::new(&data);
    assert_eq!(c.read_u32_le(), Some(0x0403_0201));
    assert_eq!(c.read_const_num_of_bytes::<1>(), Some([5]));
    assert_eq!(c.read_null_padded_string(4), b"ab");
    assert_eq!(c.position(), 9);
    assert_eq!(c.read_u32_le(), None);
    assert_eq!(c.read_num_of_bytes(2), None);
    assert_eq!(c.read_to_vec(), vec![9]);
    assert_eq!(c.read_num_of_bytes(0), Some(vec![]));
    assert!(c.set_position(2));
    assert!(!c.set_position(11));
    assert_eq!(c.read_null_padded_string(20), vec![3, 4, 5, b'a', b'b']);
    assert_eq!(c.position(), 10);
}

#[test]
fn magic_input_is_never_decompressed() {
    let bytes = bytes_from_bpk1_blocks(&[block("X", &[5])]).unwrap();
    let back = decode_blocks(&bytes, &never_called).unwrap();
    assert_eq!(views(&back), views(&[block("X", &[5])]));
}

#[test]
fn undecompressable_input_is_bad_magic() {
    let none = |_: &[u8]| -> Option<Vec<u8>> { None };
    assert_eq!(decode_blocks(b"garbage", &none).err(), Some(BPK1Error::BadMagic));
    let still_bad = |_: &[u8]| -> Option<Vec<u8>> { Some(b"nope".to_vec()) };
    assert_eq!(decode_blocks(b"garbage", &still_bad).err(), Some(BPK1Error::BadMagic));
}

#[test]
fn decompressed_input_is_read() {
    let inner = bytes_from_bpk1_blocks(&[block("Y", &[6, 7])]).unwrap();
    let expand = move |_: &[u8]| -> Option<Vec<u8>> { Some(inner.clone()) };
    let back = decode_blocks(b"packed", &expand).unwrap();
    assert_eq!(views(&back), views(&[block("Y", &[6, 7])]));
}

#[test]
fn block_map_groups_by_first_appearance() {
    let blocks = vec![
        block("B", &[1]),
        block("A", &[2]),
        block("B", &[3]),
        block("C", &[]),
        block("A", &[4]),
    ];
    let map = BlockMap::new_from_bpk1_blocks(&blocks);
    let names: Vec<&[u8]> = map.entries.iter().map(|e| e.name.as_slice()).collect();
    assert_eq!(names, vec![&b"B"[..], b"A", b"C"]);
    assert_eq!(map.get(b"B").unwrap(), &vec![vec![1u8], vec![3]]);
    assert_eq!(map.get(b"A").unwrap(), &vec![vec![2u8], vec![4]]);
    assert_eq!(map.get(b"C").unwrap(), &vec![Vec::<u8>::new()]);
    assert!(map.get(b"D").is_none());
}
