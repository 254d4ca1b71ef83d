use libdoodle::bpk1::{bytes_from_bpk1_blocks, decode_blocks, BPK1Block};
use libdoodle::letter::Letter;
use std::io::Cursor;

fn decompress_from_slice(slice: &[u8]) -> std::io::Result<Vec<u8>> {
    rust_lzss::decompress(&mut Cursor::new(slice))
}

fn lzss_decompress(data: &[u8]) -> Option<Vec<u8>> {
    decompress_from_slice(data).ok()
}

/// An LZSS type 0x10 stream that holds `data` as literals only.
fn literal_lzss(data: &[u8]) -> Vec<u8> {
    let n = data.len() as u32;
    let mut out = vec![0x10, (n & 0xff) as u8, ((n >> 8) & 0xff) as u8, ((n >> 16) & 0xff) as u8];
    for chunk in data.chunks(8) {
        out.push(0);
        out.extend_from_slice(chunk);
    }
    out
}

#[test]
fn test_decompress() {
    assert_eq!(
        decompress_from_slice(&[0x10, 0x14, 0x00, 0x00, 0x08, 0x61, 0x62, 0x63, 0x64, 0xD0, 0x03,])
            .unwrap(),
        b"abcdabcdabcdabcdabcd"
    );
}

#[test]
fn compressed_container_is_read() {
    let blocks = vec![BPK1Block { name: b"THUMB2".to_vec(), data: vec![1, 2, 3] }];
    let packed = literal_lzss(&bytes_from_bpk1_blocks(&blocks).unwrap());
    let back = decode_blocks(&packed, &lzss_decompress).unwrap();
    assert_eq!(back.len(), 1);
    assert_eq!(back[0].name, b"THUMB2");
    assert_eq!(back[0].data, vec![1, 2, 3]);
    let letter = Letter::new_from_bpk1_bytes(&packed, &lzss_decompress).unwrap();
    assert_eq!(letter.thumbnails, vec![vec![1u8, 2, 3]]);
}
