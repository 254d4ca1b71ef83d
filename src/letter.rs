//! The letter: every block of a container dispatched by name to its decoder, plus the raw
//! blocks grouped by name.

use crate::blocks::{bytes_equal, group_blocks, BlockMap};
use crate::bpk1::{
    blocks_read, blocks_result_view, blocks_view, decode_blocks, BPK1Block, BPK1Error, BlockModel,
};
use crate::color::{colors_fit, colors_match, Colors};
use crate::error::DecodeError;
use crate::mii_data::{mii_error, mii_matches, MiiData, MII_DATA_LEN};
use crate::reader::{ByteCursor, ReadExt};
use crate::sheet::{sheet_fits, sheet_spec, Sheet};
use crate::stationery::{
    stationery_matches, stationery_read, stationery_result_matches, Stationery, StationeryScan,
};
use vstd::prelude::*;
use vstd::slice::slice_to_vec;

verus! {

/// A decoded letter. Of the blocks that occur once in a well-formed letter (identity,
/// palette, stationery) the last one in the file is kept.
pub struct Letter {
    pub thumbnails: Vec<Vec<u8>>,
    pub sender_mii: Option<MiiData>,
    pub stationery: Option<Stationery>,
    pub sheets: Vec<Sheet>,
    pub colors: Option<Colors>,
    pub blocks: BlockMap,
}

/// The blocks a letter decodes.
#[derive(Clone, Copy, Debug, PartialEq, Eq, Structural)]
pub enum LetterBlockKind {
    /// `THUMB2`: a thumbnail image, kept as it is.
    Thumbnail,
    /// `MIISTD1`: the sender's Mii record.
    SenderMii,
    /// `COLSLT1`: the color palette.
    Colors,
    /// `STATIN1`: the stationery, itself a container.
    Stationery,
    /// `SHEET1`: a sheet of strokes.
    Sheet,
    Other,
}

/// The letter block that a name denotes.
pub open spec fn letter_kind_spec(name: Seq<u8>) -> LetterBlockKind {
    if name == seq![0x54u8, 0x48u8, 0x55u8, 0x4du8, 0x42u8, 0x32u8] {
        LetterBlockKind::Thumbnail
    } else if name == seq![0x4du8, 0x49u8, 0x49u8, 0x53u8, 0x54u8, 0x44u8, 0x31u8] {
        LetterBlockKind::SenderMii
    } else if name == seq![0x43u8, 0x4fu8, 0x4cu8, 0x53u8, 0x4cu8, 0x54u8, 0x31u8] {
        LetterBlockKind::Colors
    } else if name == seq![0x53u8, 0x54u8, 0x41u8, 0x54u8, 0x49u8, 0x4eu8, 0x31u8] {
        LetterBlockKind::Stationery
    } else if name == seq![0x53u8, 0x48u8, 0x45u8, 0x45u8, 0x54u8, 0x31u8] {
        LetterBlockKind::Sheet
    } else {
        LetterBlockKind::Other
    }
}

/// Which letter block a name denotes; names compare byte for byte.
pub fn letter_block_kind(name: &[u8]) -> (k: LetterBlockKind)
    ensures
        k == letter_kind_spec(name@),
{
    let thumbnail: [u8; 6] = [0x54, 0x48, 0x55, 0x4d, 0x42, 0x32];
    let mii: [u8; 7] = [0x4d, 0x49, 0x49, 0x53, 0x54, 0x44, 0x31];
    let colors: [u8; 7] = [0x43, 0x4f, 0x4c, 0x53, 0x4c, 0x54, 0x31];
    let stationery: [u8; 7] = [0x53, 0x54, 0x41, 0x54, 0x49, 0x4e, 0x31];
    let sheet: [u8; 6] = [0x53, 0x48, 0x45, 0x45, 0x54, 0x31];
    assert(thumbnail@ =~= seq![0x54u8, 0x48u8, 0x55u8, 0x4du8, 0x42u8, 0x32u8]);
    assert(mii@ =~= seq![0x4du8, 0x49u8, 0x49u8, 0x53u8, 0x54u8, 0x44u8, 0x31u8]);
    assert(colors@ =~= seq![0x43u8, 0x4fu8, 0x4cu8, 0x53u8, 0x4cu8, 0x54u8, 0x31u8]);
    assert(stationery@ =~= seq![0x53u8, 0x54u8, 0x41u8, 0x54u8, 0x49u8, 0x4eu8, 0x31u8]);
    assert(sheet@ =~= seq![0x53u8, 0x48u8, 0x45u8, 0x45u8, 0x54u8, 0x31u8]);
    if bytes_equal(name, thumbnail.as_slice()) {
        LetterBlockKind::Thumbnail
    } else if bytes_equal(name, mii.as_slice()) {
        LetterBlockKind::SenderMii
    } else if bytes_equal(name, colors.as_slice()) {
        LetterBlockKind::Colors
    } else if bytes_equal(name, stationery.as_slice()) {
        LetterBlockKind::Stationery
    } else if bytes_equal(name, sheet.as_slice()) {
        LetterBlockKind::Sheet
    } else {
        LetterBlockKind::Other
    }
}

/// What decoding a stationery block gave: its blocks and the scan over them, or a failure.
pub type StationeryOutcome = Result<(Seq<BlockModel>, StationeryScan), DecodeError>;

/// What a scan over a letter's blocks has collected: the payloads that the letter's fields
/// are decoded from.
pub struct LetterScan {
    pub thumbnails: Seq<Seq<u8>>,
    pub mii: Option<Seq<u8>>,
    pub stationery: Option<(Seq<BlockModel>, StationeryScan)>,
    pub sheets: Seq<Seq<u8>>,
    pub colors: Option<Seq<u8>>,
}

/// One block of the scan; `o` is what decoding it gave when it is a stationery block.
pub open spec fn letter_step(sc: LetterScan, b: BlockModel, o: StationeryOutcome) -> Result<
    LetterScan,
    DecodeError,
> {
    match letter_kind_spec(b.name) {
        LetterBlockKind::Thumbnail => Ok(
            LetterScan { thumbnails: sc.thumbnails.push(b.data), ..sc },
        ),
        LetterBlockKind::SenderMii => if b.data.len() < MII_DATA_LEN {
            Err(DecodeError::MiiTooShort)
        } else {
            match mii_error(b.data.take(MII_DATA_LEN as int)) {
                Some(e) => Err(DecodeError::Mii(e)),
                None => Ok(LetterScan { mii: Some(b.data.take(MII_DATA_LEN as int)), ..sc }),
            }
        },
        LetterBlockKind::Colors => if colors_fit(b.data) {
            Ok(LetterScan { colors: Some(b.data), ..sc })
        } else {
            Err(DecodeError::ColorsTooShort)
        },
        LetterBlockKind::Stationery => match o {
            Ok(p) => Ok(LetterScan { stationery: Some(p), ..sc }),
            Err(e) => Err(e),
        },
        LetterBlockKind::Sheet => if sheet_fits(b.data) {
            Ok(LetterScan { sheets: sc.sheets.push(b.data), ..sc })
        } else {
            Err(DecodeError::SheetTooShort)
        },
        LetterBlockKind::Other => Ok(sc),
    }
}

/// The scan over the blocks in list order, stopping at the first block that fails; `outs[i]`
/// is what decoding block `i` gave when it is a stationery block.
pub open spec fn letter_scan(bs: Seq<BlockModel>, outs: Seq<StationeryOutcome>) -> Result<
    LetterScan,
    DecodeError,
>
    decreases bs.len(),
{
    if bs.len() == 0 {
        Ok(
            LetterScan {
                thumbnails: Seq::empty(),
                mii: None,
                stationery: None,
                sheets: Seq::empty(),
                colors: None,
            },
        )
    } else {
        match letter_scan(bs.drop_last(), outs.drop_last()) {
            Ok(sc) => letter_step(sc, bs.last(), outs.last()),
            Err(e) => Err(e),
        }
    }
}

/// Whether decoded fields are what the scan `sc` collected.
pub open spec fn letter_parts_match(
    thumbnails: Seq<Vec<u8>>,
    sender_mii: Option<MiiData>,
    stationery: Option<Stationery>,
    sheets: Seq<Sheet>,
    colors: Option<Colors>,
    sc: LetterScan,
) -> bool {
    &&& thumbnails.map_values(|t: Vec<u8>| t@) == sc.thumbnails
    &&& sheets.len() == sc.sheets.len()
    &&& forall|i: int|
        0 <= i < sheets.len() ==> (#[trigger] sheets[i]).strokes@ == sheet_spec(sc.sheets[i])
    &&& sender_mii is Some == sc.mii is Some
    &&& sender_mii matches Some(m) ==> mii_matches(m, sc.mii->0)
    &&& colors is Some == sc.colors is Some
    &&& colors matches Some(c) ==> colors_match(c, sc.colors->0)
    &&& stationery is Some == sc.stationery is Some
    &&& stationery matches Some(s) ==> stationery_matches(
        s,
        (sc.stationery->0).1,
        (sc.stationery->0).0,
    )
}

/// Whether `r` is the result of the scan `spec` over blocks `bs`.
pub open spec fn letter_result_matches(
    r: Result<Letter, DecodeError>,
    spec: Result<LetterScan, DecodeError>,
    bs: Seq<BlockModel>,
) -> bool {
    match r {
        Ok(l) => spec matches Ok(sc) && letter_parts_match(
            l.thumbnails@,
            l.sender_mii,
            l.stationery,
            l.sheets@,
            l.colors,
            sc,
        ) && l.blocks@ == group_blocks(bs),
        Err(e) => spec == Err::<LetterScan, DecodeError>(e),
    }
}

/// Whether `r` is what decoding a letter from blocks `bs` can give: the scan over the blocks,
/// where each stationery block that the scan reaches is read through `decompress`.
pub open spec fn letter_read<F: Fn(&[u8]) -> Option<Vec<u8>>>(
    decompress: F,
    bs: Seq<BlockModel>,
    r: Result<Letter, DecodeError>,
) -> bool {
    exists|outs: Seq<StationeryOutcome>|
        #![trigger letter_scan(bs, outs)]
        outs.len() == bs.len() && letter_result_matches(r, letter_scan(bs, outs), bs)
            && forall|k: int|
            0 <= k < bs.len() && letter_kind_spec(bs[k].name) == LetterBlockKind::Stationery
                && letter_scan(bs.take(k), outs.take(k)) is Ok ==> stationery_read(
                decompress,
                bs[k].data,
                #[trigger] outs[k],
            )
}

/// Once a prefix of the blocks fails, the whole scan fails the same way.
proof fn lemma_letter_error_persists(
    bs: Seq<BlockModel>,
    outs: Seq<StationeryOutcome>,
    i: int,
    e: DecodeError,
)
    requires
        outs.len() == bs.len(),
        0 <= i <= bs.len(),
        letter_scan(bs.take(i), outs.take(i)) == Err::<LetterScan, DecodeError>(e),
    ensures
        letter_scan(bs, outs) == Err::<LetterScan, DecodeError>(e),
    decreases bs.len() - i,
{
    if i == bs.len() {
        assert(bs.take(i) =~= bs);
        assert(outs.take(i) =~= outs);
    } else {
        assert(bs.take(i + 1).drop_last() =~= bs.take(i));
        assert(outs.take(i + 1).drop_last() =~= outs.take(i));
        lemma_letter_error_persists(bs, outs, i + 1, e);
    }
}

/// A block list whose scan fails at block `i` reads as that failure, whatever the blocks
/// after `i` hold.
proof fn lemma_letter_read_error<F: Fn(&[u8]) -> Option<Vec<u8>>>(
    decompress: F,
    bs: Seq<BlockModel>,
    outs: Seq<StationeryOutcome>,
    e: DecodeError,
)
    requires
        outs.len() <= bs.len(),
        letter_scan(bs.take(outs.len() as int), outs) == Err::<LetterScan, DecodeError>(e),
        forall|k: int|
            0 <= k < outs.len() && letter_kind_spec(bs[k].name) == LetterBlockKind::Stationery
                ==> stationery_read(decompress, bs[k].data, #[trigger] outs[k]),
    ensures
        letter_read(decompress, bs, Err(e)),
{
    let n = outs.len() as int;
    let full = outs + Seq::new(
        (bs.len() - n) as nat,
        |k: int| Err::<(Seq<BlockModel>, StationeryScan), DecodeError>(e),
    );
    assert(full.take(n) =~= outs);
    lemma_letter_error_persists(bs, full, n, e);
    assert forall|k: int|
        0 <= k < bs.len() && letter_kind_spec(bs[k].name) == LetterBlockKind::Stationery
            && letter_scan(bs.take(k), full.take(k)) is Ok implies stationery_read(
            decompress,
            bs[k].data,
            #[trigger] full[k],
        ) by {
        if k >= n {
            let bk = bs.take(k);
            let fk = full.take(k);
            assert(bk.take(n) =~= bs.take(n));
            assert(fk.take(n) =~= outs);
            lemma_letter_error_persists(bk, fk, n, e);
        }
    }
    assert(letter_result_matches(Err(e), letter_scan(bs, full), bs));
}

impl Letter {
    /// Decodes a letter from its blocks, in file order, stopping at the first block that
    /// fails. Stationery blocks are containers of their own and are read through
    /// `decompress` when they do not start with `BPK1`.
    pub fn new_from_bpk1_blocks<F: Fn(&[u8]) -> Option<Vec<u8>>>(
        blocks: &[BPK1Block],
        decompress: &F,
    ) -> (r: Result<Letter, DecodeError>)
        requires
            forall|d: &[u8]| decompress.requires((d,)),
        ensures
            letter_read(*decompress, blocks_view(blocks@), r),
    {
        let ghost bs = blocks_view(blocks@);
        let mut thumbnails: Vec<Vec<u8>> = Vec::new();
        let mut sender_mii: Option<MiiData> = None;
        let mut stationery: Option<Stationery> = None;
        let mut sheets: Vec<Sheet> = Vec::new();
        let mut colors: Option<Colors> = None;
        let ghost mut outs: Seq<StationeryOutcome> = Seq::empty();
        let ghost mut sc = LetterScan {
            thumbnails: Seq::empty(),
            mii: None,
            stationery: None,
            sheets: Seq::empty(),
            colors: None,
        };
        assert(bs.take(0) =~= Seq::<BlockModel>::empty());
        assert(thumbnails@.map_values(|t: Vec<u8>| t@) =~= Seq::<Seq<u8>>::empty());
        let mut i: usize = 0;
        while i < blocks.len()
            invariant
                bs == blocks_view(blocks@),
                i <= blocks.len(),
                outs.len() == i,
                letter_scan(bs.take(i as int), outs) == Ok::<LetterScan, DecodeError>(sc),
                letter_parts_match(thumbnails@, sender_mii, stationery, sheets@, colors, sc),
                forall|k: int|
                    0 <= k < i && letter_kind_spec(bs[k].name) == LetterBlockKind::Stationery
                        ==> stationery_read(*decompress, bs[k].data, #[trigger] outs[k]),
                forall|d: &[u8]| decompress.requires((d,)),
            decreases blocks.len() - i,
        {
            let block = &blocks[i];
            let ghost b = block@;
            let ghost mut o: StationeryOutcome = Err(DecodeError::ColorsTooShort);
            assert(bs.take(i + 1).drop_last() =~= bs.take(i as int));
            assert(bs.take(i + 1).last() == b);
            let kind = letter_block_kind(block.name.as_slice());
            let res: Result<(), DecodeError> = match kind {
                LetterBlockKind::Thumbnail => {
                    thumbnails.push(slice_to_vec(block.data.as_slice()));
                    Ok(())
                },
                LetterBlockKind::SenderMii => {
                    let mut cursor = ByteCursor::new(block.data.as_slice());
                    let record: Option<[u8; 0x5C]> = cursor.read_const_num_of_bytes();
                    match record {
                        None => Err(DecodeError::MiiTooShort),
                        Some(record) => match MiiData::from_bytes(record) {
                            Ok(m) => {
                                sender_mii = Some(m);
                                Ok(())
                            },
                            Err(e) => Err(DecodeError::Mii(e)),
                        },
                    }
                },
                LetterBlockKind::Colors => {
                    match Colors::from_bytes(block.data.as_slice()) {
                        Ok(c) => {
                            colors = Some(c);
                            Ok(())
                        },
                        Err(e) => Err(e),
                    }
                },
                LetterBlockKind::Stationery => {
                    let read = Stationery::new_from_bpk1_bytes(block.data.as_slice(), decompress);
                    proof {
                        o = choose|x: StationeryOutcome|
                            stationery_read(*decompress, b.data, x)
                                && stationery_result_matches(read, x);
                    }
                    match read {
                        Ok(st) => {
                            stationery = Some(st);
                            Ok(())
                        },
                        Err(e) => Err(e),
                    }
                },
                LetterBlockKind::Sheet => {
                    match Sheet::from_bytes(block.data.as_slice()) {
                        Ok(sh) => {
                            sheets.push(sh);
                            Ok(())
                        },
                        Err(e) => Err(e),
                    }
                },
                LetterBlockKind::Other => Ok(()),
            };
            let ghost next = outs.push(o);
            assert(next.drop_last() =~= outs);
            assert(next.last() == o);
            match res {
                Err(e) => {
                    proof {
                        lemma_letter_read_error(*decompress, bs, next, e);
                    }
                    return Err(e);
                },
                Ok(()) => {},
            }
            proof {
                let nsc = letter_step(sc, b, o)->Ok_0;
                assert(thumbnails@.map_values(|t: Vec<u8>| t@) =~= nsc.thumbnails);
                assert(sheets@.len() == nsc.sheets.len());
                assert forall|q: int| 0 <= q < sheets@.len() implies
                    (#[trigger] sheets@[q]).strokes@ == sheet_spec(nsc.sheets[q]) by {}
                sc = nsc;
                outs = next;
            }
            i = i + 1;
        }
        assert(bs.take(blocks.len() as int) =~= bs);
        let letter = Letter {
            thumbnails,
            sender_mii,
            stationery,
            sheets,
            colors,
            blocks: BlockMap::new_from_bpk1_blocks(blocks),
        };
        assert(letter_result_matches(Ok(letter), letter_scan(bs, outs), bs));
        Ok(letter)
    }

    /// Decodes a letter from container bytes, decompressing them first when they do not
    /// start with `BPK1`.
    pub fn new_from_bpk1_bytes<F: Fn(&[u8]) -> Option<Vec<u8>>>(
        data: &[u8],
        decompress: &F,
    ) -> (r: Result<Letter, DecodeError>)
        requires
            forall|d: &[u8]| decompress.requires((d,)),
        ensures
            exists|read: Result<Seq<BlockModel>, BPK1Error>|
                blocks_read(*decompress, data@, read) && match read {
                    Err(e) => r == Err::<Letter, DecodeError>(DecodeError::Container(e)),
                    Ok(bs) => letter_read(*decompress, bs, r),
                },
    {
        let blocks = decode_blocks(data, decompress);
        let ghost read = blocks_result_view(blocks);
        let res = match blocks {
            Err(e) => Err(DecodeError::Container(e)),
            Ok(bs) => Letter::new_from_bpk1_blocks(bs.as_slice(), decompress),
        };
        assert(blocks_read(*decompress, data@, read));
        res
    }
}

} // verus!
