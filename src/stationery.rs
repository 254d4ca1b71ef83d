//! The stationery record: a name, two background images and a mask, each held in a block
//! of a container of its own.

use crate::blocks::{bytes_equal, group_blocks, BlockMap};
use crate::bpk1::{
    blocks_read, blocks_result_view, blocks_view, decode_blocks, BPK1Block, BPK1Error, BlockModel,
};
use crate::error::DecodeError;
use crate::mask::{mask_matches, read_mask};
use crate::reader::{min_len, until_nul, ByteCursor, ReadExt};
use crate::text::string_from_utf8;
use vstd::prelude::*;
use vstd::utf8::{decode_utf8, valid_utf8};

verus! {

/// Longest name a stationery header holds.
pub const STATIONERY_NAME_LEN: usize = 0x80;

/// A decoded stationery record.
pub struct Stationery {
    pub name: String,
    pub background_2d: Vec<u8>,
    pub background_3d: Vec<u8>,
    /// Palette indices, indexed `[y][x]`.
    pub mask: Vec<Vec<u8>>,
    pub blocks: BlockMap,
}

/// Why a stationery record could not be decoded.
#[derive(Clone, Copy, Debug, PartialEq, Eq, Structural)]
pub enum StationeryDeserializeError {
    MissingHeader,
    MissingBothBackgrounds,
    Missing3DBackground,
    TooManyBackgrounds,
    MissingMask,
    /// The header's name is not valid UTF-8.
    InvalidName,
}

/// The blocks that make up a stationery record.
#[derive(Clone, Copy, Debug, PartialEq, Eq, Structural)]
pub enum StationeryBlockKind {
    /// `STAHED1`: the name.
    Header,
    /// `STBARD1`: a background image; the first is 2D, the second 3D.
    Background,
    /// `STMASK1`: the mask.
    Mask,
    Other,
}

/// The stationery block that a name denotes.
pub open spec fn stationery_kind_spec(name: Seq<u8>) -> StationeryBlockKind {
    if name == seq![0x53u8, 0x54u8, 0x41u8, 0x48u8, 0x45u8, 0x44u8, 0x31u8] {
        StationeryBlockKind::Header
    } else if name == seq![0x53u8, 0x54u8, 0x42u8, 0x41u8, 0x52u8, 0x44u8, 0x31u8] {
        StationeryBlockKind::Background
    } else if name == seq![0x53u8, 0x54u8, 0x4du8, 0x41u8, 0x53u8, 0x4bu8, 0x31u8] {
        StationeryBlockKind::Mask
    } else {
        StationeryBlockKind::Other
    }
}

/// Which stationery block a name denotes; names compare byte for byte.
pub fn stationery_block_kind(name: &[u8]) -> (k: StationeryBlockKind)
    ensures
        k == stationery_kind_spec(name@),
{
    let header: [u8; 7] = [0x53, 0x54, 0x41, 0x48, 0x45, 0x44, 0x31];
    let background: [u8; 7] = [0x53, 0x54, 0x42, 0x41, 0x52, 0x44, 0x31];
    let mask: [u8; 7] = [0x53, 0x54, 0x4d, 0x41, 0x53, 0x4b, 0x31];
    assert(header@ =~= seq![0x53u8, 0x54u8, 0x41u8, 0x48u8, 0x45u8, 0x44u8, 0x31u8]);
    assert(background@ =~= seq![0x53u8, 0x54u8, 0x42u8, 0x41u8, 0x52u8, 0x44u8, 0x31u8]);
    assert(mask@ =~= seq![0x53u8, 0x54u8, 0x4du8, 0x41u8, 0x53u8, 0x4bu8, 0x31u8]);
    if bytes_equal(name, header.as_slice()) {
        StationeryBlockKind::Header
    } else if bytes_equal(name, background.as_slice()) {
        StationeryBlockKind::Background
    } else if bytes_equal(name, mask.as_slice()) {
        StationeryBlockKind::Mask
    } else {
        StationeryBlockKind::Other
    }
}

/// The name bytes of a header block: up to the first NUL within its first 0x80 bytes.
pub open spec fn header_name_bytes(d: Seq<u8>) -> Seq<u8> {
    until_nul(d.take(min_len(STATIONERY_NAME_LEN, d)))
}

/// What a scan over a stationery record's blocks has collected. Later headers and masks
/// replace earlier ones; backgrounds fill the 2D slot, then the 3D one.
pub struct StationeryScan {
    pub name: Option<Seq<char>>,
    pub background_2d: Option<Seq<u8>>,
    pub background_3d: Option<Seq<u8>>,
    pub mask: Option<Seq<u8>>,
}

/// One block of the scan.
pub open spec fn scan_step(st: StationeryScan, b: BlockModel) -> Result<
    StationeryScan,
    StationeryDeserializeError,
> {
    match stationery_kind_spec(b.name) {
        StationeryBlockKind::Header => if valid_utf8(header_name_bytes(b.data)) {
            Ok(StationeryScan { name: Some(decode_utf8(header_name_bytes(b.data))), ..st })
        } else {
            Err(StationeryDeserializeError::InvalidName)
        },
        StationeryBlockKind::Background => if st.background_2d is None {
            Ok(StationeryScan { background_2d: Some(b.data), ..st })
        } else if st.background_3d is None {
            Ok(StationeryScan { background_3d: Some(b.data), ..st })
        } else {
            Err(StationeryDeserializeError::TooManyBackgrounds)
        },
        StationeryBlockKind::Mask => Ok(StationeryScan { mask: Some(b.data), ..st }),
        StationeryBlockKind::Other => Ok(st),
    }
}

/// The scan over the blocks in list order, stopping at the first failing block.
pub open spec fn stationery_scan(bs: Seq<BlockModel>) -> Result<
    StationeryScan,
    StationeryDeserializeError,
>
    decreases bs.len(),
{
    if bs.len() == 0 {
        Ok(StationeryScan { name: None, background_2d: None, background_3d: None, mask: None })
    } else {
        match stationery_scan(bs.drop_last()) {
            Ok(st) => scan_step(st, bs.last()),
            Err(e) => Err(e),
        }
    }
}

/// Once a prefix of the blocks fails, the whole list fails the same way.
proof fn lemma_scan_error_persists(bs: Seq<BlockModel>, i: int, e: StationeryDeserializeError)
    requires
        0 <= i <= bs.len(),
        stationery_scan(bs.take(i)) == Err::<StationeryScan, _>(e),
    ensures
        stationery_scan(bs) == Err::<StationeryScan, _>(e),
    decreases bs.len() - i,
{
    if i == bs.len() {
        assert(bs.take(i) =~= bs);
    } else {
        assert(bs.take(i + 1).drop_last() =~= bs.take(i));
        lemma_scan_error_persists(bs, i + 1, e);
    }
}

/// The record that the blocks hold, or the first reason they hold none.
pub open spec fn stationery_spec(bs: Seq<BlockModel>) -> Result<
    StationeryScan,
    StationeryDeserializeError,
> {
    match stationery_scan(bs) {
        Err(e) => Err(e),
        Ok(st) => if st.name is None {
            Err(StationeryDeserializeError::MissingHeader)
        } else if st.background_2d is None {
            Err(StationeryDeserializeError::MissingBothBackgrounds)
        } else if st.background_3d is None {
            Err(StationeryDeserializeError::Missing3DBackground)
        } else if st.mask is None {
            Err(StationeryDeserializeError::MissingMask)
        } else {
            Ok(st)
        },
    }
}

/// Whether `s` is the record described by the scan `st` over blocks `bs`.
pub open spec fn stationery_matches(
    s: Stationery,
    st: StationeryScan,
    bs: Seq<BlockModel>,
) -> bool {
    &&& st.name == Some(s.name@)
    &&& st.background_2d == Some(s.background_2d@)
    &&& st.background_3d == Some(s.background_3d@)
    &&& st.mask matches Some(m) && mask_matches(s.mask@, m)
    &&& s.blocks@ == group_blocks(bs)
}

/// Optional bytes as the contracts see them.
pub open spec fn option_bytes(o: Option<Vec<u8>>) -> Option<Seq<u8>> {
    match o {
        Some(v) => Some(v@),
        None => None,
    }
}

/// An optional string as the contracts see it.
pub open spec fn option_chars(o: Option<String>) -> Option<Seq<char>> {
    match o {
        Some(v) => Some(v@),
        None => None,
    }
}

/// What a stationery container that read as `blocks` gives: its blocks and the scan over
/// them, or the first failure.
pub open spec fn stationery_from_blocks(blocks: Result<Seq<BlockModel>, BPK1Error>) -> Result<
    (Seq<BlockModel>, StationeryScan),
    DecodeError,
> {
    match blocks {
        Err(e) => Err(DecodeError::Container(e)),
        Ok(bs) => match stationery_spec(bs) {
            Err(e) => Err(DecodeError::Stationery(e)),
            Ok(st) => Ok((bs, st)),
        },
    }
}

/// Whether `r` is what reading stationery from container bytes `d` can give.
pub open spec fn stationery_read<F: Fn(&[u8]) -> Option<Vec<u8>>>(
    decompress: F,
    d: Seq<u8>,
    r: Result<(Seq<BlockModel>, StationeryScan), DecodeError>,
) -> bool {
    exists|blocks: Result<Seq<BlockModel>, BPK1Error>|
        blocks_read(decompress, d, blocks) && r == stationery_from_blocks(blocks)
}

/// Whether the decoded `r` is the outcome `o`.
pub open spec fn stationery_result_matches(
    r: Result<Stationery, DecodeError>,
    o: Result<(Seq<BlockModel>, StationeryScan), DecodeError>,
) -> bool {
    match r {
        Ok(s) => o matches Ok(p) && stationery_matches(s, p.1, p.0),
        Err(e) => o == Err::<(Seq<BlockModel>, StationeryScan), DecodeError>(e),
    }
}

impl Stationery {
    /// Decodes a stationery record from its blocks: the name from the last header, the
    /// backgrounds from the first two background blocks, the mask from the last mask block.
    pub fn new_from_bpk1_blocks(blocks: &[BPK1Block]) -> (r: Result<
        Stationery,
        StationeryDeserializeError,
    >)
        ensures
            match r {
                Ok(s) => stationery_spec(blocks_view(blocks@)) matches Ok(st) && stationery_matches(
                    s,
                    st,
                    blocks_view(blocks@),
                ),
                Err(e) => stationery_spec(blocks_view(blocks@)) == Err::<StationeryScan, _>(e),
            },
    {
        let ghost bs = blocks_view(blocks@);
        let mut name: Option<String> = None;
        let mut background_2d: Option<Vec<u8>> = None;
        let mut background_3d: Option<Vec<u8>> = None;
        let mut mask: Option<Vec<Vec<u8>>> = None;
        let ghost mut mask_source: Option<Seq<u8>> = None;
        let mut i: usize = 0;
        assert(bs.take(0) =~= Seq::<BlockModel>::empty());
        while i < blocks.len()
            invariant
                bs == blocks_view(blocks@),
                i <= blocks.len(),
                stationery_scan(bs.take(i as int)) == Ok::<
                    _,
                    StationeryDeserializeError,
                >(StationeryScan {
                    name: option_chars(name),
                    background_2d: option_bytes(background_2d),
                    background_3d: option_bytes(background_3d),
                    mask: mask_source,
                }),
                mask_source is Some == mask is Some,
                mask matches Some(m) ==> mask_matches(m@, mask_source->0),
            decreases blocks.len() - i,
        {
            let block = &blocks[i];
            assert(bs.take(i + 1).drop_last() =~= bs.take(i as int));
            assert(bs.take(i + 1).last() == block@);
            match stationery_block_kind(block.name.as_slice()) {
                StationeryBlockKind::Header => {
                    let mut cursor = ByteCursor::new(block.data.as_slice());
                    let raw = cursor.read_null_padded_string(STATIONERY_NAME_LEN);
                    match string_from_utf8(raw) {
                        Some(s) => name = Some(s),
                        None => {
                            proof {
                                lemma_scan_error_persists(
                                    bs,
                                    i + 1,
                                    StationeryDeserializeError::InvalidName,
                                );
                            }
                            return Err(StationeryDeserializeError::InvalidName);
                        },
                    }
                },
                StationeryBlockKind::Background => {
                    if background_2d.is_none() {
                        background_2d = Some(block.data.clone());
                    } else if background_3d.is_none() {
                        background_3d = Some(block.data.clone());
                    } else {
                        proof {
                            lemma_scan_error_persists(
                                bs,
                                i + 1,
                                StationeryDeserializeError::TooManyBackgrounds,
                            );
                        }
                        return Err(StationeryDeserializeError::TooManyBackgrounds);
                    }
                },
                StationeryBlockKind::Mask => {
                    mask = Some(read_mask(block.data.as_slice()));
                    proof {
                        mask_source = Some(block.data@);
                    }
                },
                StationeryBlockKind::Other => {},
            }
            i = i + 1;
        }
        assert(bs.take(blocks.len() as int) =~= bs);
        let name = match name {
            Some(n) => n,
            None => return Err(StationeryDeserializeError::MissingHeader),
        };
        let background_2d = match background_2d {
            Some(b) => b,
            None => return Err(StationeryDeserializeError::MissingBothBackgrounds),
        };
        let background_3d = match background_3d {
            Some(b) => b,
            None => return Err(StationeryDeserializeError::Missing3DBackground),
        };
        let mask = match mask {
            Some(m) => m,
            None => return Err(StationeryDeserializeError::MissingMask),
        };
        Ok(
            Stationery {
                name,
                background_2d,
                background_3d,
                mask,
                blocks: BlockMap::new_from_bpk1_blocks(blocks),
            },
        )
    }

    /// Decodes a stationery record from container bytes, decompressing them first when they
    /// do not start with `BPK1`.
    pub fn new_from_bpk1_bytes<F: Fn(&[u8]) -> Option<Vec<u8>>>(data: &[u8], decompress: &F) -> (r:
        Result<Stationery, DecodeError>)
        requires
            forall|d: &[u8]| decompress.requires((d,)),
        ensures
            exists|o: Result<(Seq<BlockModel>, StationeryScan), DecodeError>|
                stationery_read(*decompress, data@, o) && stationery_result_matches(r, o),
    {
        let blocks = decode_blocks(data, decompress);
        let ghost read = blocks_result_view(blocks);
        let ghost o = stationery_from_blocks(read);
        assert(stationery_read(*decompress, data@, o));
        let res = match blocks {
            Err(e) => Err(DecodeError::Container(e)),
            Ok(bs) => match Stationery::new_from_bpk1_blocks(bs.as_slice()) {
                Ok(s) => Ok(s),
                Err(e) => Err(DecodeError::Stationery(e)),
            },
        };
        assert(stationery_result_matches(res, o));
        res
    }
}

} // verus!
