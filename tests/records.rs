use libdoodle::bpk1::{bytes_from_bpk1_blocks, BPK1Block};
use libdoodle::color::{full_rgb_value, Color, Colors};
use libdoodle::error::DecodeError;
use libdoodle::sheet::{Sheet, SheetStroke};
use libdoodle::mask::{read_mask, z_order_curve};
use libdoodle::stationery::{Stationery, StationeryDeserializeError};
use libdoodle::text::{name_from_bytes, name_units_from_bytes};

fn block(name: &str, data: &[u8]) -> BPK1Block {
    BPK1Block { name: name.as_bytes().to_vec(), data: data.to_vec() }
}

fn color_entry(id: u32, b4: u8, b5: u8, name: &str) -> Vec<u8> {
    let mut e = id.to_le_bytes().to_vec();
    e.push(b4);
    e.push(b5);
    let mut field = vec![0u8; 0x40];
    for (i, u) in name.encode_utf16().enumerate() {
        field[2 * i] = (u & 0xff) as u8;
        field[2 * i + 1] = (u >> 8) as u8;
    }
    e.extend_from_slice(&field);
    e.extend_from_slice(&[0; 6]);
    assert_eq!(e.len(), 0x4c);
    e
}

fn palette(entries: &[Vec<u8>]) -> Vec<u8> {
    let mut p = (entries.len() as u32).to_le_bytes().to_vec();
    p.resize(0x10, 0);
    for e in entries {
        p.extend_from_slice(e);
    }
    p
}

#[test]
fn nibble_expansion() {
    assert_eq!(full_rgb_value(0x0), 0);
    assert_eq!(full_rgb_value(0xF), 0xFF);
    assert_eq!(full_rgb_value(0x1), 0x1F);
    assert_eq!(full_rgb_value(0x8), 0x8F);
}

#[test]
fn color_entry_fields() {
    let e = color_entry(0x01020304, 0x3F, 0xA0, "Sky");
    let c = Color::from_bytes(e.try_into().unwrap());
    assert_eq!((c.r, c.g, c.b, c.a), (0xAF, 0, 0x3F, 0xFF));
    assert_eq!(c.id, 0x01020304);
    assert_eq!(c.name, "Sky");
}

#[test]
fn palette_decodes_every_color() {
    let p = palette(&[color_entry(1, 0x11, 0x22, "one"), color_entry(2, 0xF0, 0x0F, "two")]);
    let colors = Colors::from_bytes(&p).unwrap().colors;
    assert_eq!(colors.len(), 2);
    assert_eq!((colors[0].r, colors[0].g, colors[0].b, colors[0].a), (0x2F, 0x2F, 0x1F, 0x1F));
    assert_eq!((colors[1].r, colors[1].g, colors[1].b, colors[1].a), (0, 0xFF, 0xFF, 0));
    assert_eq!(colors[1].name, "two");
}

#[test]
fn palette_too_short() {
    let mut p = palette(&[color_entry(1, 0, 0, "x")]);
    p.pop();
    assert_eq!(Colors::from_bytes(&p).err().map(|e| e == DecodeError::ColorsTooShort), Some(true));
    assert!(Colors::from_bytes(&[1, 0, 0]).is_err());
    assert!(Colors::from_bytes(&[0; 8]).unwrap().colors.is_empty());
}

#[test]
fn utf16_names_stop_at_the_first_zero_unit() {
    assert_eq!(name_units_from_bytes(&[0x41, 0, 0x00, 0x01, 0, 0, 0x42, 0]), vec![0x41, 0x100]);
    assert_eq!(name_from_bytes([0x41, 0, 0x3d, 0xd8, 0x00, 0xde, 0, 0]), "A\u{1f600}");
    assert_eq!(name_from_bytes([0x00, 0xd8, 0x41, 0x00]), "\u{fffd}A");
    assert_eq!(name_from_bytes([0u8; 4]), "");
}

#[test]
fn stroke_fields() {
    let s = SheetStroke::from_bytes([0xA5, 0x3C, 0x67, 0x0D]);
    assert_eq!(
        s,
        SheetStroke { x: 0x73, y: 0xCA, draw_line: true, style_color: 5, style_3d: true, style_bold: true }
    );
    let s = SheetStroke::from_bytes([0x00, 0x00, 0x00, 0x00]);
    assert_eq!(
        s,
        SheetStroke { x: 0, y: 0, draw_line: false, style_color: 0, style_3d: false, style_bold: false }
    );
}

#[test]
fn sheet_decodes_strokes_from_offset_0x40() {
    let mut b = vec![0u8; 0x40];
    b[4] = 2;
    b.extend_from_slice(&[0x10, 0x20, 0x43, 0x01, 0xF0, 0xFF, 0x2F, 0x0A]);
    let strokes = Sheet::from_bytes(&b).unwrap().strokes;
    assert_eq!(strokes.len(), 2);
    assert_eq!((strokes[0].x, strokes[0].y, strokes[0].draw_line, strokes[0].style_color), (0x32, 0x01, true, 1));
    assert_eq!((strokes[1].x, strokes[1].y, strokes[1].style_3d, strokes[1].style_bold), (0xFF, 0xFF, true, true));
    b.pop();
    assert_eq!(Sheet::from_bytes(&b).err().map(|e| e == DecodeError::SheetTooShort), Some(true));
}

#[test]
fn z_order_fixture() {
    let expected: [(usize, usize); 64] = [
        (0, 0), (1, 0), (0, 1), (1, 1), (2, 0), (3, 0), (2, 1), (3, 1),
        (0, 2), (1, 2), (0, 3), (1, 3), (2, 2), (3, 2), (2, 3), (3, 3),
        (4, 0), (5, 0), (4, 1), (5, 1), (6, 0), (7, 0), (6, 1), (7, 1),
        (4, 2), (5, 2), (4, 3), (5, 3), (6, 2), (7, 2), (6, 3), (7, 3),
        (0, 4), (1, 4), (0, 5), (1, 5), (2, 4), (3, 4), (2, 5), (3, 5),
        (0, 6), (1, 6), (0, 7), (1, 7), (2, 6), (3, 6), (2, 7), (3, 7),
        (4, 4), (5, 4), (4, 5), (5, 5), (6, 4), (7, 4), (6, 5), (7, 5),
        (4, 6), (5, 6), (4, 7), (5, 7), (6, 6), (7, 6), (6, 7), (7, 7),
    ];
    for (i, want) in expected.iter().enumerate() {
        assert_eq!(z_order_curve(i), *want, "sub-index {i}");
    }
}

#[test]
fn mask_tile_follows_z_order() {
    // First tile: byte k holds sub-indices 2k (low nibble) and 2k + 1 (high nibble).
    let bytes: Vec<u8> = (0u8..32).map(|k| ((2 * k + 1) % 16) << 4 | (2 * k) % 16).collect();
    let m = read_mask(&bytes);
    assert_eq!(m.len(), 256);
    assert!(m.iter().all(|row| row.len() == 256));
    for i in 0..64usize {
        let (x, y) = z_order_curve(i);
        assert_eq!(m[y][x] as usize, i % 16, "sub-index {i}");
    }
    assert!(m[0][8..].iter().all(|&p| p == 0));
    assert!(m[8..].iter().all(|row| row.iter().all(|&p| p == 0)));
}

#[test]
fn mask_tiles_run_row_by_row() {
    let mut bytes = vec![0u8; 32768];
    bytes[32] = 0x21;
    bytes[32 * 32] = 0x43;
    bytes[32767] = 0x65;
    let m = read_mask(&bytes);
    assert_eq!((m[0][8], m[0][9]), (1, 2));
    assert_eq!((m[8][0], m[8][1]), (3, 4));
    assert_eq!((m[255][254], m[255][255]), (5, 6));
}

#[test]
fn mask_ignores_bytes_past_the_grid() {
    let mut bytes = vec![0x11u8; 32768];
    bytes.extend_from_slice(&[0x99; 10]);
    let m = read_mask(&bytes);
    assert!(m.iter().all(|row| row.iter().all(|&p| p == 1)));
}

fn header(name: &str) -> Vec<u8> {
    let mut h = name.as_bytes().to_vec();
    h.resize(0x80, 0);
    h
}

#[test]
fn stationery_from_blocks() {
    let blocks = vec![
        block("STAHED1", &header("Roses")),
        block("STBARD1", &[1, 1]),
        block("STBARD1", &[2, 2, 2]),
        block("STMASK1", &[0x21]),
        block("EXTRA", &[9]),
    ];
    let s = Stationery::new_from_bpk1_blocks(&blocks).unwrap();
    assert_eq!(s.name, "Roses");
    assert_eq!(s.background_2d, vec![1, 1]);
    assert_eq!(s.background_3d, vec![2, 2, 2]);
    assert_eq!((s.mask[0][0], s.mask[0][1]), (1, 2));
    assert_eq!(s.blocks.get(b"EXTRA").unwrap(), &vec![vec![9u8]]);
    assert_eq!(s.blocks.entries.len(), 4);
}

#[test]
fn stationery_errors() {
    let h = block("STAHED1", &header("n"));
    let b = block("STBARD1", &[1]);
    let m = block("STMASK1", &[0]);
    let cases: Vec<(Vec<BPK1Block>, StationeryDeserializeError)> = vec![
        (vec![b.clone_block(), b.clone_block(), m.clone_block()], StationeryDeserializeError::MissingHeader),
        (vec![h.clone_block(), m.clone_block()], StationeryDeserializeError::MissingBothBackgrounds),
        (vec![h.clone_block(), b.clone_block(), m.clone_block()], StationeryDeserializeError::Missing3DBackground),
        (vec![h.clone_block(), b.clone_block(), b.clone_block()], StationeryDeserializeError::MissingMask),
        (
            vec![h.clone_block(), b.clone_block(), b.clone_block(), b.clone_block(), m.clone_block()],
            StationeryDeserializeError::TooManyBackgrounds,
        ),
        (vec![block("STAHED1", &[0xff, 0xfe, 0]), b.clone_block(), b.clone_block(), m.clone_block()], StationeryDeserializeError::InvalidName),
    ];
    for (blocks, want) in cases {
        assert_eq!(Stationery::new_from_bpk1_blocks(&blocks).err(), Some(want));
    }
}

#[test]
fn stationery_name_reads_at_most_0x80_bytes() {
    let mut long = vec![b'a'; 0x90];
    long[0x85] = 0;
    let blocks = vec![block("STAHED1", &long), block("STBARD1", &[]), block("STBARD1", &[]), block("STMASK1", &[])];
    assert_eq!(Stationery::new_from_bpk1_blocks(&blocks).unwrap().name.len(), 0x80);
}

#[test]
fn stationery_from_container_bytes() {
    let blocks = vec![block("STAHED1", &header("Card")), block("STBARD1", &[1]), block("STBARD1", &[2]), block("STMASK1", &[3])];
    let bytes = bytes_from_bpk1_blocks(&blocks).unwrap();
    let none = |_: &[u8]| -> Option<Vec<u8>> { None };
    assert_eq!(Stationery::new_from_bpk1_bytes(&bytes, &none).unwrap().name, "Card");
    let err = Stationery::new_from_bpk1_bytes(b"junk", &none).err().unwrap();
    assert_eq!(err, DecodeError::Container(libdoodle::bpk1::BPK1Error::BadMagic));
}

trait CloneBlock {
    fn clone_block(&self) -> BPK1Block;
}

impl CloneBlock for BPK1Block {
    fn clone_block(&self) -> BPK1Block {
        BPK1Block { name: self.name.clone(), data: self.data.clone() }
    }
}
