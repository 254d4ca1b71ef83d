//! The stationery mask: a 256x256 grid of palette indices stored as nibbles, two pixels to
//! a byte, in Z-order within 8x8 tiles.

use vstd::prelude::*;

verus! {

/// Side of the square mask, in pixels.
pub const MASK_SIZE: usize = 256;

/// Side of one tile of the mask, in pixels.
pub const BLOCK_SIZE: usize = 8;

/// At most this many mask bytes are read: two pixels each, the whole grid.
pub const MASK_BYTES: usize = 32768;

/// Where sub-index `i` of an 8x8 tile lies in Z-order: `x` takes the even bits of `i` and
/// `y` the odd ones.
pub open spec fn z_order_spec(i: int) -> (int, int) {
    (
        i % 2 + 2 * ((i / 4) % 2) + 4 * ((i / 16) % 2),
        (i / 2) % 2 + 2 * ((i / 8) % 2) + 4 * ((i / 32) % 2),
    )
}

/// The Z-order sub-index of the pixel at `(px, py)` of a tile: the inverse of `z_order_spec`.
pub open spec fn z_order_index(px: int, py: int) -> int {
    px % 2 + 2 * (py % 2) + 4 * ((px / 2) % 2) + 8 * ((py / 2) % 2) + 16 * ((px / 4) % 2) + 32 * ((
    py / 4) % 2)
}

/// The mask byte that holds pixel `(x, y)`: tiles are stored row by row, 32 bytes each, and
/// within a tile two Z-order neighbours share a byte.
pub open spec fn mask_byte_index(x: int, y: int) -> int {
    ((y / 8) * 32 + x / 8) * 32 + z_order_index(x % 8, y % 8) / 2
}

/// The palette index of pixel `(x, y)`: the low nibble of its byte for even `x`, the high
/// one for odd `x`, and 0 where the mask bytes run out.
pub open spec fn mask_pixel(b: Seq<u8>, x: int, y: int) -> u8 {
    let l = mask_byte_index(x, y);
    if l < b.len() && l < MASK_BYTES {
        if x % 2 == 0 {
            b[l] % 16
        } else {
            b[l] / 16
        }
    } else {
        0
    }
}

/// Whether `m` is the 256x256 mask that the bytes `b` hold, indexed `m[y][x]`.
pub open spec fn mask_matches(m: Seq<Vec<u8>>, b: Seq<u8>) -> bool {
    &&& m.len() == MASK_SIZE
    &&& forall|y: int| 0 <= y < MASK_SIZE ==> (#[trigger] m[y])@.len() == MASK_SIZE
    &&& forall|x: int, y: int|
        0 <= x < MASK_SIZE && 0 <= y < MASK_SIZE ==> #[trigger] m[y]@[x] == mask_pixel(b, x, y)
}

/// Implements a Z-order curve for sub-indices of an 8x8 tile.
pub fn z_order_curve(i: usize) -> (r: (usize, usize))
    ensures
        r.0 == z_order_spec(i as int).0,
        r.1 == z_order_spec(i as int).1,
        r.0 < 8 && r.1 < 8,
{
    let x = (i & 1) | ((i & 0b100) >> 1) | ((i & 0b10000) >> 2);
    let y = ((i & 2) >> 1) | ((i & 0b1000) >> 2) | ((i & 0b100000) >> 3);
    assert(x == i % 2 + 2 * ((i / 4) % 2) + 4 * ((i / 16) % 2) && x < 8) by (bit_vector)
        requires
            x == (i & 1) | ((i & 0b100) >> 1) | ((i & 0b10000) >> 2),
    ;
    assert(y == (i / 2) % 2 + 2 * ((i / 8) % 2) + 4 * ((i / 32) % 2) && y < 8) by (bit_vector)
        requires
            y == ((i & 2) >> 1) | ((i & 0b1000) >> 2) | ((i & 0b100000) >> 3),
    ;
    (x, y)
}

/// Where mask byte `l` puts its low nibble; the high nibble goes one pixel to the right.
pub open spec fn byte_pixel(l: int) -> (int, int) {
    let block = l / 32;
    let z = z_order_spec((l % 128) * 2);
    ((block % 32) * 8 + z.0, (block / 32) * 8 + z.1)
}

/// Byte `l` of the mask is the byte of the two pixels it is written to.
proof fn lemma_byte_pixel_index(l: u32)
    requires
        l < 32768,
    ensures
        byte_pixel(l as int).0 % 2 == 0,
        0 <= byte_pixel(l as int).0 && byte_pixel(l as int).0 + 1 < MASK_SIZE,
        0 <= byte_pixel(l as int).1 < MASK_SIZE,
        mask_byte_index(byte_pixel(l as int).0, byte_pixel(l as int).1) == l,
        mask_byte_index(byte_pixel(l as int).0 + 1, byte_pixel(l as int).1) == l,
{
    let z: u32 = ((l % 128) * 2) as u32;
    let zx: u32 = (z % 2 + 2 * ((z / 4) % 2) + 4 * ((z / 16) % 2)) as u32;
    let zy: u32 = ((z / 2) % 2 + 2 * ((z / 8) % 2) + 4 * ((z / 32) % 2)) as u32;
    let x: u32 = (((l / 32) % 32) * 8 + zx) as u32;
    let y: u32 = (((l / 32) / 32) * 8 + zy) as u32;
    assert(x % 2 == 0 && x + 1 < 256 && y < 256 && ((y / 8) * 32 + x / 8) * 32 + ((x % 8) % 2 + 2
        * ((y % 8) % 2) + 4 * (((x % 8) / 2) % 2) + 8 * (((y % 8) / 2) % 2) + 16 * (((x % 8) / 4)
        % 2) + 32 * (((y % 8) / 4) % 2)) / 2 == l && (((y / 8) * 32 + (x + 1) / 8) * 32 + (((x
        + 1) % 8) % 2 + 2 * ((y % 8) % 2) + 4 * ((((x + 1) % 8) / 2) % 2) + 8 * (((y % 8) / 2)
        % 2) + 16 * ((((x + 1) % 8) / 4) % 2) + 32 * (((y % 8) / 4) % 2)) / 2) == l)
        by (bit_vector)
        requires
            l < 32768,
            z == (l % 128) * 2,
            zx == z % 2 + 2 * ((z / 4) % 2) + 4 * ((z / 16) % 2),
            zy == (z / 2) % 2 + 2 * ((z / 8) % 2) + 4 * ((z / 32) % 2),
            x == ((l / 32) % 32) * 8 + zx,
            y == ((l / 32) / 32) * 8 + zy,
    ;
}

/// A pixel of the grid is written by exactly the byte that holds it.
proof fn lemma_pixel_byte(x: u32, y: u32)
    requires
        x < 256,
        y < 256,
    ensures
        0 <= mask_byte_index(x as int, y as int) < MASK_BYTES,
        byte_pixel(mask_byte_index(x as int, y as int)).0 == x - x % 2,
        byte_pixel(mask_byte_index(x as int, y as int)).1 == y,
{
    let l: u32 = (((y / 8) * 32 + x / 8) * 32 + ((x % 8) % 2 + 2 * ((y % 8) % 2) + 4 * (((x % 8)
        / 2) % 2) + 8 * (((y % 8) / 2) % 2) + 16 * (((x % 8) / 4) % 2) + 32 * (((y % 8) / 4) % 2))
        / 2) as u32;
    let z: u32 = ((l % 128) * 2) as u32;
    assert(l < 32768 && ((l / 32) % 32) * 8 + (z % 2 + 2 * ((z / 4) % 2) + 4 * ((z / 16) % 2))
        == x - x % 2 && ((l / 32) / 32) * 8 + ((z / 2) % 2 + 2 * ((z / 8) % 2) + 4 * ((z / 32)
        % 2)) == y) by (bit_vector)
        requires
            x < 256,
            y < 256,
            l == ((y / 8) * 32 + x / 8) * 32 + ((x % 8) % 2 + 2 * ((y % 8) % 2) + 4 * (((x % 8)
                / 2) % 2) + 8 * (((y % 8) / 2) % 2) + 16 * (((x % 8) / 4) % 2) + 32 * (((y % 8)
                / 4) % 2)) / 2,
            z == (l % 128) * 2,
    ;
}

/// What the grid holds at `(x, y)` once the first `l` mask bytes are written.
spec fn mask_after(b: Seq<u8>, l: int, x: int, y: int) -> u8 {
    if mask_byte_index(x, y) < l {
        if x % 2 == 0 {
            b[mask_byte_index(x, y)] % 16
        } else {
            b[mask_byte_index(x, y)] / 16
        }
    } else {
        0
    }
}

/// Rebuilds the 256x256 mask, indexed `[y][x]`, from up to 32768 bytes of nibbles. Byte
/// `l` belongs to 8x8 tile `l / 32`, tiles running 32 to a row; within the tile it holds two
/// horizontally adjacent pixels at Z-order sub-index `2 * (l % 32)`, low nibble on the left.
pub fn read_mask(bytes: &[u8]) -> (m: Vec<Vec<u8>>)
    ensures
        mask_matches(m@, bytes@),
{
    let mut image: Vec<Vec<u8>> = Vec::new();
    let mut r: usize = 0;
    while r < MASK_SIZE
        invariant
            r <= MASK_SIZE,
            image@.len() == r,
            forall|y: int| 0 <= y < r ==> (#[trigger] image@[y])@.len() == MASK_SIZE,
            forall|x: int, y: int|
                0 <= x < MASK_SIZE && 0 <= y < r ==> #[trigger] image@[y]@[x] == 0,
        decreases MASK_SIZE - r,
    {
        image.push(vec![0u8; MASK_SIZE]);
        r = r + 1;
    }
    let limit = if bytes.len() < MASK_BYTES {
        bytes.len()
    } else {
        MASK_BYTES
    };
    let mut l: usize = 0;
    while l < limit
        invariant
            limit <= bytes.len(),
            limit <= MASK_BYTES,
            l <= limit,
            image@.len() == MASK_SIZE,
            forall|y: int| 0 <= y < MASK_SIZE ==> (#[trigger] image@[y])@.len() == MASK_SIZE,
            forall|x: int, y: int|
                0 <= x < MASK_SIZE && 0 <= y < MASK_SIZE ==> #[trigger] image@[y]@[x] == mask_after(
                    bytes@,
                    l as int,
                    x,
                    y,
                ),
        decreases limit - l,
    {
        let byte = bytes[l];
        let block_index = l / 32;
        let px_index_within_block = l % 128;
        let block_x = block_index % 32;
        let block_y = block_index / 32;
        let (zx, zy) = z_order_curve(px_index_within_block * 2);
        let x = block_x * BLOCK_SIZE + zx;
        let y = block_y * BLOCK_SIZE + zy;
        proof {
            lemma_byte_pixel_index(l as u32);
            assert(x == byte_pixel(l as int).0 && y == byte_pixel(l as int).1);
        }
        let lo = byte & 0x0F;
        let hi = byte >> 4;
        assert(lo == byte % 16 && hi == byte / 16) by (bit_vector)
            requires
                lo == byte & 0x0F,
                hi == byte >> 4,
        ;
        let ghost before = image@;
        image[y][x] = lo;
        image[y][x + 1] = hi;
        assert forall|px: int, py: int|
            0 <= px < MASK_SIZE && 0 <= py < MASK_SIZE implies #[trigger] image@[py]@[px]
            == mask_after(bytes@, l + 1, px, py) by {
            lemma_pixel_byte(px as u32, py as u32);
            if mask_byte_index(px, py) == l {
                assert(py == y && (px == x || px == x + 1));
            } else {
                assert(!(py == y && (px == x || px == x + 1)));
                assert(image@[py]@[px] == before[py]@[px]);
            }
        }
        l = l + 1;
    }
    image
}

} // verus!
