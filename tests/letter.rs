use libdoodle::bpk1::{bytes_from_bpk1_blocks, BPK1Block, BPK1Error};
use libdoodle::error::DecodeError;
use libdoodle::letter::{letter_block_kind, Letter, LetterBlockKind};
use libdoodle::mii_data::{MiiDeserializeError, MiiFavoriteColor};

const RECORD: [u8; 92] = [
    0x03, 0x15, 0x21, 0x30, 0x01, 0x02, 0x03, 0x04, 0x05, 0x06, 0x07, 0x08, 0x80, 0x00, 0x01, 0x00,
    0xa0, 0xa1, 0xa2, 0xa3, 0xa4, 0xa5, 0x00, 0x00, 0x2b, 0x52, 0x41, 0x00, 0x62, 0x00, 0x00, 0x00,
    0x00, 0x00, 0x00, 0x00, 0x00, 0x00, 0x00, 0x00, 0x00, 0x00, 0x00, 0x00, 0x00, 0x00, 0x40, 0x41,
    0x47, 0x12, 0x21, 0x08, 0xc5, 0x68, 0x47, 0x18, 0x06, 0x34, 0x06, 0x15, 0x81, 0x12, 0x97, 0x68,
    0x0d, 0x00, 0x00, 0x29, 0x00, 0x52, 0x48, 0x50, 0x5a, 0x00, 0xe9, 0x00, 0x00, 0x00, 0x00, 0x00,
    0x00, 0x00, 0x00, 0x00, 0x00, 0x00, 0x00, 0x00, 0x00, 0x00, 0x00, 0x00,
];

fn block(name: &str, data: &[u8]) -> BPK1Block {
    BPK1Block { name: name.as_bytes().to_vec(), data: data.to_vec() }
}

fn no_decompressor(_: &[u8]) -> Option<Vec<u8>> {
    None
}

fn palette(n: u32) -> Vec<u8> {
    let mut p = n.to_le_bytes().to_vec();
    p.resize(0x10 + 0x4c * n as usize, 0);
    for i in 0..n as usize {
        p[0x10 + 0x4c * i] = i as u8;
        p[0x10 + 0x4c * i + 5] = 0xF1;
    }
    p
}

fn sheet(strokes: &[[u8; 4]]) -> Vec<u8> {
    let mut s = vec![0u8; 0x40];
    s[4] = strokes.len() as u8;
    for st in strokes {
        s.extend_from_slice(st);
    }
    s
}

fn stationery_container(name: &str) -> Vec<u8> {
    let mut h = name.as_bytes().to_vec();
    h.resize(0x80, 0);
    bytes_from_bpk1_blocks(&[
        block("STAHED1", &h),
        block("STBARD1", &[1]),
        block("STBARD1", &[2]),
        block("STMASK1", &[0x54]),
    ])
    .unwrap()
}

#[test]
fn block_kinds() {
    assert_eq!(letter_block_kind(b"THUMB2"), LetterBlockKind::Thumbnail);
    assert_eq!(letter_block_kind(b"MIISTD1"), LetterBlockKind::SenderMii);
    assert_eq!(letter_block_kind(b"COLSLT1"), LetterBlockKind::Colors);
    assert_eq!(letter_block_kind(b"STATIN1"), LetterBlockKind::Stationery);
    assert_eq!(letter_block_kind(b"SHEET1"), LetterBlockKind::Sheet);
    assert_eq!(letter_block_kind(b"sheet1"), LetterBlockKind::Other);
    assert_eq!(letter_block_kind(b"SHEET"), LetterBlockKind::Other);
}

#[test]
fn end_to_end_letter() {
    let blocks = vec![
        block("THUMB2", &[0xAA, 0xBB]),
        block("MIISTD1", &RECORD),
        block("COLSLT1", &palette(3)),
        block("SHEET1", &sheet(&[[0x10, 0x20, 0x43, 0x01]])),
        block("STATIN1", &stationery_container("Leaf")),
        block("SHEET1", &sheet(&[[0, 0, 0, 0], [0xF0, 0xFF, 0x2F, 0x0A]])),
        block("UNKNOWN", &[5]),
        block("THUMB2", &[0xCC]),
    ];
    let bytes = bytes_from_bpk1_blocks(&blocks).unwrap();
    let letter = Letter::new_from_bpk1_bytes(&bytes, &no_decompressor).unwrap();
    assert_eq!(letter.thumbnails, vec![vec![0xAA, 0xBB], vec![0xCC]]);
    let mii = letter.sender_mii.as_ref().unwrap();
    assert_eq!(mii.mii_name, "Ab");
    assert_eq!(mii.favorite_color, MiiFavoriteColor::Green);
    let colors = &letter.colors.as_ref().unwrap().colors;
    assert_eq!(colors.len(), 3);
    assert_eq!(colors.iter().map(|c| c.id).collect::<Vec<_>>(), vec![0, 1, 2]);
    assert_eq!((colors[2].r, colors[2].g), (0xFF, 0x1F));
    assert_eq!(letter.sheets.len(), 2);
    assert_eq!(letter.sheets[0].strokes.len(), 1);
    assert_eq!(letter.sheets[0].strokes[0].x, 0x32);
    assert_eq!(letter.sheets[1].strokes.len(), 2);
    assert_eq!(letter.sheets[1].strokes[1].y, 0xFF);
    let st = letter.stationery.as_ref().unwrap();
    assert_eq!(st.name, "Leaf");
    assert_eq!((st.mask[0][0], st.mask[0][1]), (4, 5));
    assert_eq!(letter.blocks.get(b"UNKNOWN").unwrap(), &vec![vec![5u8]]);
    assert_eq!(letter.blocks.get(b"SHEET1").unwrap().len(), 2);
    assert_eq!(letter.blocks.entries.len(), 6);
}

#[test]
fn letter_without_optional_blocks() {
    let bytes = bytes_from_bpk1_blocks(&[block("OTHER", &[])]).unwrap();
    let letter = Letter::new_from_bpk1_bytes(&bytes, &no_decompressor).unwrap();
    assert!(letter.sender_mii.is_none());
    assert!(letter.colors.is_none());
    assert!(letter.stationery.is_none());
    assert!(letter.sheets.is_empty());
    assert!(letter.thumbnails.is_empty());
}

#[test]
fn last_singular_block_wins() {
    let mut second = RECORD;
    second[24] = 0;
    second[25] = 1 << 2;
    let blocks = vec![
        block("MIISTD1", &RECORD),
        block("COLSLT1", &palette(1)),
        block("MIISTD1", &second),
        block("COLSLT1", &palette(2)),
    ];
    let letter = Letter::new_from_bpk1_blocks(&blocks, &no_decompressor).unwrap();
    assert_eq!(letter.sender_mii.unwrap().favorite_color, MiiFavoriteColor::Orange);
    assert_eq!(letter.colors.unwrap().colors.len(), 2);
}

#[test]
fn identity_block_errors() {
    let short = vec![block("MIISTD1", &RECORD[..91])];
    assert_eq!(Letter::new_from_bpk1_blocks(&short, &no_decompressor).err(), Some(DecodeError::MiiTooShort));
    let mut bad = RECORD.to_vec();
    bad[0] = 7;
    bad.push(0xEE);
    let blocks = vec![block("MIISTD1", &bad)];
    assert_eq!(
        Letter::new_from_bpk1_blocks(&blocks, &no_decompressor).err(),
        Some(DecodeError::Mii(MiiDeserializeError::UnknownVersion(7)))
    );
}

#[test]
fn first_failing_block_decides() {
    let blocks = vec![
        block("THUMB2", &[]),
        block("SHEET1", &[0; 7]),
        block("COLSLT1", &[0; 3]),
    ];
    assert_eq!(Letter::new_from_bpk1_blocks(&blocks, &no_decompressor).err(), Some(DecodeError::SheetTooShort));
    let blocks = vec![block("COLSLT1", &[0; 3]), block("SHEET1", &[0; 7])];
    assert_eq!(Letter::new_from_bpk1_blocks(&blocks, &no_decompressor).err(), Some(DecodeError::ColorsTooShort));
}

#[test]
fn stationery_block_errors_abort_the_letter() {
    let blocks = vec![block("STATIN1", b"not a container")];
    assert_eq!(
        Letter::new_from_bpk1_blocks(&blocks, &no_decompressor).err(),
        Some(DecodeError::Container(BPK1Error::BadMagic))
    );
    let inner = bytes_from_bpk1_blocks(&[block("STBARD1", &[1])]).unwrap();
    let blocks = vec![block("STATIN1", &inner)];
    assert_eq!(
        Letter::new_from_bpk1_blocks(&blocks, &no_decompressor).err(),
        Some(DecodeError::Stationery(libdoodle::stationery::StationeryDeserializeError::MissingHeader))
    );
}

#[test]
fn container_errors_surface() {
    assert_eq!(
        Letter::new_from_bpk1_bytes(b"BPK1", &no_decompressor).err(),
        Some(DecodeError::Container(BPK1Error::Truncated))
    );
    assert_eq!(
        Letter::new_from_bpk1_bytes(b"zzzz", &no_decompressor).err(),
        Some(DecodeError::Container(BPK1Error::BadMagic))
    );
}
