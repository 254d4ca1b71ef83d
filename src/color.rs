//! The color palette block: RGBA nibbles, an id and a UTF-16 name per color.

use crate::bits::PickBit;
use crate::error::DecodeError;
use crate::reader::{le_u32, u32_from_le, ByteCursor, ReadExt};
use crate::text::{name_from_bytes, name_units, utf16_lossy};
use vstd::prelude::*;

verus! {

/// Length of one palette entry.
pub const COLOR_LEN: usize = 0x4c;

/// Where the first palette entry starts.
pub const COLORS_START: usize = 0x10;

/// The colors of a palette block, in stored order.
pub struct Colors {
    pub colors: Vec<Color>,
}

/// One palette color, each channel widened to eight bits.
pub struct Color {
    pub r: u8,
    pub g: u8,
    pub b: u8,
    pub a: u8,
    pub id: u32,
    pub name: String,
}

/// A four-bit channel widened to eight bits: the nibble in the high half and ones below,
/// except that nibble 0 stays 0.
pub open spec fn full_rgb_spec(nibble: u8) -> u8 {
    if nibble == 0 {
        0
    } else {
        (nibble * 16 + 15) as u8
    }
}

/// Whether `c` is what the 0x4c-byte entry `e` holds.
pub open spec fn color_matches(c: Color, e: Seq<u8>) -> bool {
    &&& c.r == full_rgb_spec(e[5].field(4, 7))
    &&& c.g == full_rgb_spec(e[5].field(0, 3))
    &&& c.b == full_rgb_spec(e[4].field(4, 7))
    &&& c.a == full_rgb_spec(e[4].field(0, 3))
    &&& c.id == le_u32(e, 0)
    &&& c.name@ == utf16_lossy(name_units(e.subrange(6, 0x46)))
}

/// The number of colors a palette block declares.
pub open spec fn color_count(b: Seq<u8>) -> nat {
    le_u32(b, 0)
}

/// Whether a palette block holds its header and every color it declares.
pub open spec fn colors_fit(b: Seq<u8>) -> bool {
    b.len() >= 8 && (color_count(b) == 0 || COLORS_START + COLOR_LEN * color_count(b) <= b.len())
}

/// The bytes of palette entry `i`.
pub open spec fn color_entry(b: Seq<u8>, i: int) -> Seq<u8> {
    b.subrange(COLORS_START + COLOR_LEN * i, COLORS_START + COLOR_LEN * i + COLOR_LEN)
}

/// Whether `cs` is the palette that block `b` holds.
pub open spec fn colors_match(cs: Colors, b: Seq<u8>) -> bool {
    &&& cs.colors@.len() == color_count(b)
    &&& forall|i: int|
        0 <= i < cs.colors@.len() ==> color_matches(#[trigger] cs.colors@[i], color_entry(b, i))
}

/// Widens a four-bit channel to eight bits; nibble 0 stays 0.
pub fn full_rgb_value(nibble: u8) -> (r: u8)
    requires
        nibble < 16,
    ensures
        r == full_rgb_spec(nibble),
{
    let full = nibble << 4 | 0x0F;
    assert(full == nibble * 16 + 15) by (bit_vector)
        requires
            nibble < 16,
            full == nibble << 4 | 0x0F,
    ;
    if full == 0x0F {
        return 0;
    }
    full
}

impl Color {
    /// Decodes one 0x4c-byte palette entry.
    pub fn from_bytes(bytes: [u8; 0x4c]) -> (c: Color)
        ensures
            color_matches(c, bytes@),
    {
        let mut name_field = [0u8; 0x40];
        let mut j: usize = 0;
        while j < 0x40
            invariant
                j <= 0x40,
                forall|k: int| 0 <= k < j ==> name_field@[k] == bytes@[k + 6],
            decreases 0x40 - j,
        {
            name_field[j] = bytes[j + 6];
            j = j + 1;
        }
        assert(name_field@ =~= bytes@.subrange(6, 0x46));
        let hi = bytes[5];
        let lo = bytes[4];
        assert(hi.field(4, 7) < 16 && hi.field(0, 3) < 16 && lo.field(4, 7) < 16 && lo.field(0, 3)
            < 16) by (bit_vector);
        Color {
            r: full_rgb_value(hi.pick_bits(4..=7)),
            g: full_rgb_value(hi.pick_bits(0..=3)),
            b: full_rgb_value(lo.pick_bits(4..=7)),
            a: full_rgb_value(lo.pick_bits(0..=3)),
            id: u32_from_le(bytes[0], bytes[1], bytes[2], bytes[3]),
            name: name_from_bytes(name_field),
        }
    }
}

impl Colors {
    /// Decodes a palette block: a color count, four reserved bytes, then the colors from
    /// offset 0x10 on.
    pub fn from_bytes(bytes: &[u8]) -> (r: Result<Colors, DecodeError>)
        ensures
            match r {
                Ok(cs) => colors_fit(bytes@) && colors_match(cs, bytes@),
                Err(e) => !colors_fit(bytes@) && e == DecodeError::ColorsTooShort,
            },
    {
        if bytes.len() < 8 {
            return Err(DecodeError::ColorsTooShort);
        }
        let count = u32_from_le(bytes[0], bytes[1], bytes[2], bytes[3]);
        let mut colors: Vec<Color> = Vec::new();
        if count == 0 {
            return Ok(Colors { colors });
        }
        if bytes.len() < COLORS_START || (bytes.len() - COLORS_START) / COLOR_LEN < count as usize {
            proof {
                if bytes.len() >= COLORS_START {
                    assert(COLORS_START + COLOR_LEN * count > bytes.len()) by (nonlinear_arith)
                        requires
                            (bytes.len() - COLORS_START) / (COLOR_LEN as int) < count,
                            bytes.len() >= COLORS_START,
                    ;
                }
            }
            return Err(DecodeError::ColorsTooShort);
        }
        assert(COLORS_START + COLOR_LEN * count <= bytes.len()) by (nonlinear_arith)
            requires
                (bytes.len() - COLORS_START) / (COLOR_LEN as int) >= count,
                bytes.len() >= COLORS_START,
        ;
        let mut cursor = ByteCursor::new(bytes);
        cursor.set_position(COLORS_START);
        let mut i: u32 = 0;
        while i < count
            invariant
                count == color_count(bytes@),
                COLORS_START + COLOR_LEN * count <= bytes.len(),
                i <= count,
                cursor.unread() == bytes@.skip(COLORS_START + COLOR_LEN * i),
                colors@.len() == i,
                forall|k: int|
                    0 <= k < i ==> color_matches(#[trigger] colors@[k], color_entry(bytes@, k)),
            decreases count - i,
        {
            let ghost start = COLORS_START + COLOR_LEN * i;
            assert(start + COLOR_LEN <= bytes.len()) by (nonlinear_arith)
                requires
                    start == COLORS_START + COLOR_LEN * i,
                    i < count,
                    COLORS_START + COLOR_LEN * count <= bytes.len(),
            ;
            let entry: [u8; 0x4c] = match cursor.read_const_num_of_bytes() {
                Some(a) => a,
                None => return Err(DecodeError::ColorsTooShort),
            };
            assert(entry@ =~= color_entry(bytes@, i as int));
            assert(bytes@.skip(start).skip(COLOR_LEN as int) =~= bytes@.skip(
                COLORS_START + COLOR_LEN * (i + 1),
            ));
            colors.push(Color::from_bytes(entry));
            i = i + 1;
        }
        Ok(Colors { colors })
    }
}

} // verus!
