//! The stroke-sheet block: pen positions and styles, four bytes per stroke.

use crate::bits::PickBit;
use crate::error::DecodeError;
use crate::reader::{le_u32, u32_from_le, ByteCursor, ReadExt};
use vstd::prelude::*;

verus! {

/// Length of one stroke.
pub const STROKE_LEN: usize = 4;

/// Where the first stroke starts.
pub const STROKES_START: usize = 0x40;

/// The strokes of a sheet, in stored order.
pub struct Sheet {
    pub strokes: Vec<SheetStroke>,
}

/// One pen position: where it is, whether a line is drawn to it, and in which style.
#[derive(Clone, Copy, Debug, PartialEq, Eq, Structural)]
pub struct SheetStroke {
    pub x: u8,
    pub y: u8,
    pub draw_line: bool,
    pub style_color: u8,
    pub style_3d: bool,
    pub style_bold: bool,
}

/// The stroke that the four bytes `b0 b1 b2 b3` hold. The coordinates straddle byte
/// boundaries: `x` has the low nibble of `b2` above the high nibble of `b1`, and `y` the low
/// nibble of `b1` above the high nibble of `b0`.
pub open spec fn stroke_spec(b0: u8, b1: u8, b2: u8, b3: u8) -> SheetStroke {
    SheetStroke {
        x: ((b2 % 16) * 16 + b1 / 16) as u8,
        y: ((b1 % 16) * 16 + b0 / 16) as u8,
        draw_line: (b2 / 64) % 2 == 1,
        style_color: b3 % 8,
        style_3d: (b2 / 32) % 2 == 1,
        style_bold: (b3 / 8) % 2 == 1,
    }
}

/// The number of strokes a sheet block declares.
pub open spec fn stroke_count(b: Seq<u8>) -> nat {
    le_u32(b, 4)
}

/// Whether a sheet block holds its header and every stroke it declares.
pub open spec fn sheet_fits(b: Seq<u8>) -> bool {
    b.len() >= 8 && (stroke_count(b) == 0 || STROKES_START + STROKE_LEN * stroke_count(b)
        <= b.len())
}

/// The stroke stored at index `i` of a sheet block.
pub open spec fn stroke_at(b: Seq<u8>, i: int) -> SheetStroke {
    let p = STROKES_START + STROKE_LEN * i;
    stroke_spec(b[p], b[p + 1], b[p + 2], b[p + 3])
}

/// The strokes of sheet block `b`.
pub open spec fn sheet_spec(b: Seq<u8>) -> Seq<SheetStroke> {
    Seq::new(stroke_count(b), |i: int| stroke_at(b, i))
}

impl SheetStroke {
    /// Decodes one four-byte stroke.
    pub fn from_bytes(bytes: [u8; 4]) -> (s: SheetStroke)
        ensures
            s == stroke_spec(bytes[0], bytes[1], bytes[2], bytes[3]),
    {
        let b0 = bytes[0];
        let b1 = bytes[1];
        let b2 = bytes[2];
        let b3 = bytes[3];
        let x = (b2 & 0x0F) << 4 | b1.pick_bits(4..=7);
        let y = (b1 & 0x0F) << 4 | b0.pick_bits(4..=7);
        assert(x == (b2 % 16) * 16 + b1 / 16) by (bit_vector)
            requires
                x == (b2 & 0x0F) << 4 | ((b1 >> 4u8) & (u8::MAX >> 4u8)),
        ;
        assert(y == (b1 % 16) * 16 + b0 / 16) by (bit_vector)
            requires
                y == (b1 & 0x0F) << 4 | ((b0 >> 4u8) & (u8::MAX >> 4u8)),
        ;
        assert(((b2 >> 6u8) & 1 == 1) == ((b2 / 64) % 2 == 1) && ((b2 >> 5u8) & 1 == 1) == ((b2
            / 32) % 2 == 1) && ((b3 >> 3u8) & 1 == 1) == ((b3 / 8) % 2 == 1) && ((b3 >> 0u8) & (
        u8::MAX >> 5u8)) == b3 % 8) by (bit_vector);
        SheetStroke {
            x,
            y,
            draw_line: b2.pick_bit(6),
            style_color: b3.pick_bits(0..=2),
            style_3d: b2.pick_bit(5),
            style_bold: b3.pick_bit(3),
        }
    }
}

impl Sheet {
    /// Decodes a sheet block: four reserved bytes, a stroke count, then the strokes from
    /// offset 0x40 on.
    pub fn from_bytes(bytes: &[u8]) -> (r: Result<Sheet, DecodeError>)
        ensures
            match r {
                Ok(s) => sheet_fits(bytes@) && s.strokes@ == sheet_spec(bytes@),
                Err(e) => !sheet_fits(bytes@) && e == DecodeError::SheetTooShort,
            },
    {
        if bytes.len() < 8 {
            return Err(DecodeError::SheetTooShort);
        }
        let count = u32_from_le(bytes[4], bytes[5], bytes[6], bytes[7]);
        let mut strokes: Vec<SheetStroke> = Vec::new();
        if count == 0 {
            assert(strokes@ =~= sheet_spec(bytes@));
            return Ok(Sheet { strokes });
        }
        if bytes.len() < STROKES_START || (bytes.len() - STROKES_START) / STROKE_LEN
            < count as usize {
            proof {
                if bytes.len() >= STROKES_START {
                    assert(STROKES_START + STROKE_LEN * count > bytes.len()) by (nonlinear_arith)
                        requires
                            (bytes.len() - STROKES_START) / (STROKE_LEN as int) < count,
                            bytes.len() >= STROKES_START,
                    ;
                }
            }
            return Err(DecodeError::SheetTooShort);
        }
        assert(STROKES_START + STROKE_LEN * count <= bytes.len()) by (nonlinear_arith)
            requires
                (bytes.len() - STROKES_START) / (STROKE_LEN as int) >= count,
                bytes.len() >= STROKES_START,
        ;
        let mut cursor = ByteCursor::new(bytes);
        cursor.set_position(STROKES_START);
        let mut i: u32 = 0;
        while i < count
            invariant
                count == stroke_count(bytes@),
                STROKES_START + STROKE_LEN * count <= bytes.len(),
                i <= count,
                cursor.unread() == bytes@.skip(STROKES_START + STROKE_LEN * i),
                strokes@ == sheet_spec(bytes@).take(i as int),
            decreases count - i,
        {
            let ghost start = STROKES_START + STROKE_LEN * i;
            assert(start + STROKE_LEN <= bytes.len()) by (nonlinear_arith)
                requires
                    start == STROKES_START + STROKE_LEN * i,
                    i < count,
                    STROKES_START + STROKE_LEN * count <= bytes.len(),
            ;
            let raw: [u8; 4] = match cursor.read_const_num_of_bytes() {
                Some(a) => a,
                None => return Err(DecodeError::SheetTooShort),
            };
            assert(bytes@.skip(start).skip(STROKE_LEN as int) =~= bytes@.skip(
                STROKES_START + STROKE_LEN * (i + 1),
            ));
            let stroke = SheetStroke::from_bytes(raw);
            strokes.push(stroke);
            i = i + 1;
            assert(strokes@ =~= sheet_spec(bytes@).take(i as int));
        }
        assert(strokes@ =~= sheet_spec(bytes@));
        Ok(Sheet { strokes })
    }
}

} // verus!
