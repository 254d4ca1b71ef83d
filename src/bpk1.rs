//! The BPK1 container: a header, a directory of named blocks, and the blocks' payloads.

use crate::reader::{le_u32, lemma_until_nul_at, until_nul, ByteCursor, ReadExt};
use vstd::prelude::*;
use vstd::slice::slice_to_vec;

verus! {

/// Length of the fixed header: magic, block count and a reserved region.
pub const HEADER_LEN: usize = 0x40;

/// Length of one directory entry: offset, size, checksum and an eight-byte name region.
pub const ENTRY_LEN: usize = 20;

/// Length of the name region of a directory entry.
pub const NAME_LEN: usize = 8;

/// A named block as the contracts see it.
pub struct BlockModel {
    pub name: Seq<u8>,
    pub data: Seq<u8>,
}

/// A named block read from, or to be written to, a container. The name holds no NUL byte.
pub struct BPK1Block {
    pub name: Vec<u8>,
    pub data: Vec<u8>,
}

impl View for BPK1Block {
    type V = BlockModel;

    open spec fn view(&self) -> BlockModel {
        BlockModel { name: self.name@, data: self.data@ }
    }
}

/// Why a container could not be read.
#[derive(Clone, Copy, Debug, PartialEq, Eq, Structural)]
pub enum BPK1Error {
    /// The bytes do not start with `BPK1`, also after decompression.
    BadMagic,
    /// The header or the directory runs past the end of the bytes.
    Truncated,
    /// A directory entry names a payload that runs past the end of the bytes.
    BlockOutOfBounds,
}

/// Whether `d` starts with the ASCII bytes `BPK1`.
pub open spec fn has_magic(d: Seq<u8>) -> bool {
    &&& d.len() >= 4
    &&& d[0] == 0x42
    &&& d[1] == 0x50
    &&& d[2] == 0x4b
    &&& d[3] == 0x31
}

/// The number of blocks that the header declares.
pub open spec fn block_count(d: Seq<u8>) -> nat {
    le_u32(d, 4)
}

/// Where directory entry `i` starts.
pub open spec fn entry_base(i: int) -> int {
    HEADER_LEN + ENTRY_LEN * i
}

/// Where the payload of entry `i` starts.
pub open spec fn entry_offset(d: Seq<u8>, i: int) -> nat {
    le_u32(d, entry_base(i))
}

/// How long the payload of entry `i` is.
pub open spec fn entry_size(d: Seq<u8>, i: int) -> nat {
    le_u32(d, entry_base(i) + 4)
}

/// The name of entry `i`: its name region up to the first NUL.
pub open spec fn entry_name(d: Seq<u8>, i: int) -> Seq<u8> {
    until_nul(d.subrange(entry_base(i) + 12, entry_base(i) + 12 + NAME_LEN))
}

/// Whether the payload of entry `i` lies inside `d`.
pub open spec fn entry_in_bounds(d: Seq<u8>, i: int) -> bool {
    entry_offset(d, i) + entry_size(d, i) <= d.len()
}

/// The block that entry `i` describes.
pub open spec fn entry_block(d: Seq<u8>, i: int) -> BlockModel {
    BlockModel {
        name: entry_name(d, i),
        data: d.subrange(entry_offset(d, i) as int, (entry_offset(d, i) + entry_size(d, i)) as int),
    }
}

/// The blocks of a container, in directory order, or the first reason it cannot be read.
pub open spec fn parse_blocks_spec(d: Seq<u8>) -> Result<Seq<BlockModel>, BPK1Error> {
    if !has_magic(d) {
        Err(BPK1Error::BadMagic)
    } else if d.len() < HEADER_LEN || d.len() < HEADER_LEN + ENTRY_LEN * block_count(d) {
        Err(BPK1Error::Truncated)
    } else if exists|i: int| 0 <= i < block_count(d) && !entry_in_bounds(d, i) {
        Err(BPK1Error::BlockOutOfBounds)
    } else {
        Ok(Seq::new(block_count(d), |i: int| entry_block(d, i)))
    }
}

/// The blocks of a vector, as the contracts see them.
pub open spec fn blocks_view(v: Seq<BPK1Block>) -> Seq<BlockModel> {
    v.map_values(|b: BPK1Block| b@)
}

/// A parse result as the contracts see it.
pub open spec fn blocks_result_view(r: Result<Vec<BPK1Block>, BPK1Error>) -> Result<
    Seq<BlockModel>,
    BPK1Error,
> {
    match r {
        Ok(v) => Ok(blocks_view(v@)),
        Err(e) => Err(e),
    }
}

/// Whether the slice starts with the ASCII bytes `BPK1`.
pub fn has_bpk1_magic(data: &[u8]) -> (r: bool)
    ensures
        r == has_magic(data@),
{
    data.len() >= 4 && data[0] == 0x42 && data[1] == 0x50 && data[2] == 0x4b && data[3] == 0x31
}

/// A directory entry as read, before its payload is fetched.
struct DirEntry {
    offset: u32,
    size: u32,
    name: Vec<u8>,
}

/// Reads the directory and the payloads of a container whose bytes are already
/// decompressed.
pub fn parse_blocks(data: &[u8]) -> (r: Result<Vec<BPK1Block>, BPK1Error>)
    ensures
        blocks_result_view(r) == parse_blocks_spec(data@),
{
    if !has_bpk1_magic(data) {
        return Err(BPK1Error::BadMagic);
    }
    if data.len() < HEADER_LEN {
        return Err(BPK1Error::Truncated);
    }
    let mut cursor = ByteCursor::new(data);
    cursor.set_position(4);
    let count = match cursor.read_u32_le() {
        Some(n) => n,
        None => return Err(BPK1Error::Truncated),
    };
    assert(data@.skip(4)[0] == data@[4] && data@.skip(4)[3] == data@[7]);
    assert(count == block_count(data@));
    if (data.len() - HEADER_LEN) / ENTRY_LEN < count as usize {
        return Err(BPK1Error::Truncated);
    }
    assert(data.len() >= HEADER_LEN + ENTRY_LEN * count) by (nonlinear_arith)
        requires
            (data.len() - HEADER_LEN) / (ENTRY_LEN as int) >= count,
            data.len() >= HEADER_LEN,
    ;
    cursor.set_position(HEADER_LEN);
    assert(entry_base(0) == HEADER_LEN);
    let mut entries: Vec<DirEntry> = Vec::new();
    let mut i: u32 = 0;
    while i < count
        invariant
            count == block_count(data@),
            data.len() >= HEADER_LEN + ENTRY_LEN * count,
            i <= count,
            cursor.unread() == data@.skip(entry_base(i as int)),
            entries.len() == i,
            forall|j: int|
                0 <= j < i ==> {
                    &&& #[trigger] entries@[j].offset == entry_offset(data@, j)
                    &&& entries@[j].size == entry_size(data@, j)
                    &&& entries@[j].name@ == entry_name(data@, j)
                },
        decreases count - i,
    {
        let ghost base = entry_base(i as int);
        assert(base + ENTRY_LEN <= data.len()) by (nonlinear_arith)
            requires
                base == HEADER_LEN + ENTRY_LEN * i,
                i < count,
                data.len() >= HEADER_LEN + ENTRY_LEN * count,
        ;
        let offset = match cursor.read_u32_le() {
            Some(n) => n,
            None => return Err(BPK1Error::Truncated),
        };
        assert(le_u32(data@.skip(base), 0) == le_u32(data@, base));
        assert(data@.skip(base).skip(4) =~= data@.skip(base + 4));
        let size = match cursor.read_u32_le() {
            Some(n) => n,
            None => return Err(BPK1Error::Truncated),
        };
        assert(le_u32(data@.skip(base + 4), 0) == le_u32(data@, base + 4));
        assert(data@.skip(base + 4).skip(4) =~= data@.skip(base + 8));
        let _checksum = cursor.read_u32_le();
        assert(data@.skip(base + 8).skip(4) =~= data@.skip(base + 12));
        let name = cursor.read_null_padded_string(NAME_LEN);
        assert(data@.skip(base + 12).take(8) =~= data@.subrange(base + 12, base + 12 + NAME_LEN));
        assert(data@.skip(base + 12).skip(8) =~= data@.skip(base + 20));
        entries.push(DirEntry { offset, size, name });
        i = i + 1;
        assert(cursor.unread() =~= data@.skip(entry_base(i as int)));
    }
    let mut blocks: Vec<BPK1Block> = Vec::new();
    let mut k: usize = 0;
    while k < entries.len()
        invariant
            count == block_count(data@),
            has_magic(data@),
            data.len() >= HEADER_LEN + ENTRY_LEN * count,
            entries.len() == count,
            k <= entries.len(),
            forall|j: int|
                0 <= j < count ==> {
                    &&& #[trigger] entries@[j].offset == entry_offset(data@, j)
                    &&& entries@[j].size == entry_size(data@, j)
                    &&& entries@[j].name@ == entry_name(data@, j)
                },
            blocks.len() == k,
            forall|j: int| 0 <= j < k ==> entry_in_bounds(data@, j),
            forall|j: int| 0 <= j < k ==> #[trigger] blocks@[j]@ == entry_block(data@, j),
        decreases entries.len() - k,
    {
        let offset = entries[k].offset as usize;
        let size = entries[k].size as usize;
        if offset > data.len() || size > data.len() - offset {
            assert(0 <= k < block_count(data@) && !entry_in_bounds(data@, k as int));
            return Err(BPK1Error::BlockOutOfBounds);
        }
        let payload = slice_to_vec(&data[offset..offset + size]);
        let name = entries[k].name.clone();
        blocks.push(BPK1Block { name, data: payload });
        k = k + 1;
    }
    assert(blocks_view(blocks@) =~= Seq::new(block_count(data@), |i: int| entry_block(data@, i)));
    Ok(blocks)
}

/// Why a block list cannot be written as a container.
#[derive(Clone, Copy, Debug, PartialEq, Eq, Structural)]
pub enum BuildError {
    /// A block name is longer than eight bytes or holds a NUL byte.
    InvalidName,
    /// The container would not fit the 32-bit offsets of its directory.
    TooLarge,
}

/// The four bytes of `x`, least significant first.
pub open spec fn le_bytes(x: nat) -> Seq<u8> {
    seq![
        (x % 0x100) as u8,
        ((x / 0x100) % 0x100) as u8,
        ((x / 0x10000) % 0x100) as u8,
        ((x / 0x1000000) % 0x100) as u8,
    ]
}

/// A name that fits the eight-byte name region of a directory entry and reads back whole.
pub open spec fn name_fits(name: Seq<u8>) -> bool {
    name.len() <= NAME_LEN && forall|j: int| 0 <= j < name.len() ==> name[j] != 0
}

/// The name region written for `name`: the name followed by NUL bytes.
pub open spec fn padded_name(name: Seq<u8>) -> Seq<u8> {
    name + Seq::new((NAME_LEN - name.len()) as nat, |j: int| 0u8)
}

/// The byte sequences of `ss` one after the other.
pub open spec fn concat(ss: Seq<Seq<u8>>) -> Seq<u8>
    decreases ss.len(),
{
    if ss.len() == 0 {
        Seq::empty()
    } else {
        concat(ss.drop_last()) + ss.last()
    }
}

/// The payloads of `bs`, in list order.
pub open spec fn payloads(bs: Seq<BlockModel>) -> Seq<Seq<u8>> {
    bs.map_values(|b: BlockModel| b.data)
}

/// Where the payload of block `i` is written: after the header, the directory and the
/// payloads before it.
pub open spec fn payload_offset(bs: Seq<BlockModel>, i: int) -> nat {
    (HEADER_LEN + ENTRY_LEN * bs.len() + concat(payloads(bs).take(i)).len()) as nat
}

/// The length of the whole container written for `bs`.
pub open spec fn encoded_len(bs: Seq<BlockModel>) -> nat {
    payload_offset(bs, bs.len() as int)
}

/// The directory entry written for block `i`; its checksum is written as zero.
pub open spec fn entry_bytes(bs: Seq<BlockModel>, i: int) -> Seq<u8> {
    le_bytes(payload_offset(bs, i)) + le_bytes(bs[i].data.len()) + le_bytes(0) + padded_name(
        bs[i].name,
    )
}

/// The header written for `count` blocks: magic, count, then zeros.
pub open spec fn header_bytes(count: nat) -> Seq<u8> {
    seq![0x42u8, 0x50u8, 0x4bu8, 0x31u8] + le_bytes(count) + Seq::new(
        (HEADER_LEN - 8) as nat,
        |j: int| 0u8,
    )
}

/// The directory written for `bs`: one entry per block, in list order.
pub open spec fn directory_bytes(bs: Seq<BlockModel>) -> Seq<u8> {
    concat(Seq::new(bs.len(), |i: int| entry_bytes(bs, i)))
}

/// The container written for `bs`: header, directory, then the payloads in list order.
#[verifier::opaque]
pub open spec fn encode_spec(bs: Seq<BlockModel>) -> Seq<u8> {
    header_bytes(bs.len()) + directory_bytes(bs) + concat(payloads(bs))
}

/// The container written for `bs`, or the reason none can be.
pub open spec fn build_spec(bs: Seq<BlockModel>) -> Result<Seq<u8>, BuildError> {
    if exists|i: int| 0 <= i < bs.len() && !name_fits(#[trigger] bs[i].name) {
        Err(BuildError::InvalidName)
    } else if encoded_len(bs) > u32::MAX {
        Err(BuildError::TooLarge)
    } else {
        Ok(encode_spec(bs))
    }
}

/// The four bytes of a `u32` read back as that `u32`.
proof fn lemma_le_bytes_roundtrip(x: u32)
    ensures
        le_u32(le_bytes(x as nat), 0) == x,
        le_bytes(x as nat).len() == 4,
{
    assert((x % 0x100) + 0x100 * ((x / 0x100) % 0x100) + 0x10000 * ((x / 0x10000) % 0x100)
        + 0x1000000 * ((x / 0x1000000) % 0x100) == x) by (bit_vector);
}

/// Concatenating one more element appends it.
proof fn lemma_concat_take_step(ss: Seq<Seq<u8>>, i: int)
    requires
        0 <= i < ss.len(),
    ensures
        concat(ss.take(i + 1)) == concat(ss.take(i)) + ss[i],
{
    assert(ss.take(i + 1).drop_last() =~= ss.take(i));
}

/// A prefix of the elements concatenates to no more bytes than all of them.
proof fn lemma_concat_take_len(ss: Seq<Seq<u8>>, i: int)
    requires
        0 <= i <= ss.len(),
    ensures
        concat(ss.take(i)).len() <= concat(ss).len(),
    decreases ss.len() - i,
{
    if i == ss.len() {
        assert(ss.take(i) =~= ss);
    } else {
        lemma_concat_take_step(ss, i);
        lemma_concat_take_len(ss, i + 1);
    }
}

/// Element `i` of `ss` sits in `concat(ss)` right after the elements before it.
proof fn lemma_concat_slice(ss: Seq<Seq<u8>>, i: int)
    requires
        0 <= i < ss.len(),
    ensures
        concat(ss.take(i)).len() + ss[i].len() <= concat(ss).len(),
        concat(ss).subrange(
            concat(ss.take(i)).len() as int,
            (concat(ss.take(i)).len() + ss[i].len()) as int,
        ) == ss[i],
{
    lemma_concat_take_step(ss, i);
    lemma_concat_take_len(ss, i + 1);
    let pre = concat(ss.take(i + 1));
    let whole = concat(ss);
    assert(pre.subrange(concat(ss.take(i)).len() as int, pre.len() as int) =~= ss[i]);
    lemma_concat_prefix(ss, i + 1);
    assert(whole.subrange(concat(ss.take(i)).len() as int, pre.len() as int) =~= pre.subrange(
        concat(ss.take(i)).len() as int,
        pre.len() as int,
    ));
}

/// `concat(ss.take(i))` is a prefix of `concat(ss)`.
proof fn lemma_concat_prefix(ss: Seq<Seq<u8>>, i: int)
    requires
        0 <= i <= ss.len(),
    ensures
        concat(ss.take(i)) == concat(ss).take(concat(ss.take(i)).len() as int),
    decreases ss.len() - i,
{
    lemma_concat_take_len(ss, i);
    if i == ss.len() {
        assert(ss.take(i) =~= ss);
        assert(concat(ss).take(concat(ss).len() as int) =~= concat(ss));
    } else {
        lemma_concat_take_step(ss, i);
        lemma_concat_prefix(ss, i + 1);
        lemma_concat_take_len(ss, i + 1);
        assert(concat(ss.take(i)) =~= concat(ss.take(i + 1)).take(
            concat(ss.take(i)).len() as int,
        ));
        assert(concat(ss.take(i)) =~= concat(ss).take(concat(ss.take(i)).len() as int));
    }
}

/// When every element has length `w`, the first `i` of them take `w * i` bytes.
proof fn lemma_concat_uniform_len(ss: Seq<Seq<u8>>, w: nat, i: int)
    requires
        0 <= i <= ss.len(),
        forall|j: int| 0 <= j < ss.len() ==> (#[trigger] ss[j]).len() == w,
    ensures
        concat(ss.take(i)).len() == w * i,
    decreases i,
{
    if i == 0 {
        assert(ss.take(0) =~= Seq::<Seq<u8>>::empty());
    } else {
        lemma_concat_take_step(ss, i - 1);
        lemma_concat_uniform_len(ss, w, i - 1);
        assert(w * (i - 1) + w == w * i) by (nonlinear_arith);
    }
}

/// A name that fits fills its region exactly and reads back whole.
proof fn lemma_padded_name(name: Seq<u8>)
    requires
        name_fits(name),
    ensures
        padded_name(name).len() == NAME_LEN,
        until_nul(padded_name(name)) == name,
{
    let p = padded_name(name);
    lemma_until_nul_at(p, name.len() as int);
    assert(p.take(name.len() as int) =~= name);
}

/// The sizes in a container that can be written: the directory takes twenty bytes per block
/// and every offset fits 32 bits.
proof fn lemma_encoded_layout(bs: Seq<BlockModel>)
    requires
        build_spec(bs) is Ok,
    ensures
        forall|i: int| 0 <= i < bs.len() ==> name_fits(#[trigger] bs[i].name),
        directory_bytes(bs).len() == ENTRY_LEN * bs.len(),
        encode_spec(bs).len() == encoded_len(bs),
        encoded_len(bs) == HEADER_LEN + ENTRY_LEN * bs.len() + concat(payloads(bs)).len(),
        encoded_len(bs) <= u32::MAX,
        bs.len() <= u32::MAX,
{
    reveal(encode_spec);
    let n = bs.len();
    let entries = Seq::new(n, |i: int| entry_bytes(bs, i));
    let ps = payloads(bs);
    assert forall|i: int| 0 <= i < n implies name_fits(#[trigger] bs[i].name) by {}
    assert forall|j: int| 0 <= j < n implies (#[trigger] entries[j]).len() == ENTRY_LEN by {
        lemma_padded_name(bs[j].name);
    }
    lemma_concat_uniform_len(entries, ENTRY_LEN as nat, n as int);
    assert(entries.take(n as int) =~= entries);
    assert(ps.take(n as int) =~= ps);
}

/// Directory entry `i` of a written container holds the bytes that the writer put there.
proof fn lemma_entry_bytes_at(bs: Seq<BlockModel>, i: int)
    requires
        build_spec(bs) is Ok,
        0 <= i < bs.len(),
    ensures
        encode_spec(bs).subrange(entry_base(i), entry_base(i) + ENTRY_LEN) == entry_bytes(bs, i),
{
    lemma_encoded_layout(bs);
    reveal(encode_spec);
    let n = bs.len();
    let entries = Seq::new(n, |k: int| entry_bytes(bs, k));
    let d = directory_bytes(bs);
    let h = header_bytes(n);
    assert forall|j: int| 0 <= j < n implies (#[trigger] entries[j]).len() == ENTRY_LEN by {
        lemma_padded_name(bs[j].name);
    }
    lemma_concat_uniform_len(entries, ENTRY_LEN as nat, i);
    lemma_concat_slice(entries, i);
    assert(d.subrange(ENTRY_LEN * i, ENTRY_LEN * i + ENTRY_LEN) == entry_bytes(bs, i));
    assert(h.len() == HEADER_LEN);
    assert(encode_spec(bs).subrange(entry_base(i), entry_base(i) + ENTRY_LEN) =~= d.subrange(
        ENTRY_LEN * i,
        ENTRY_LEN * i + ENTRY_LEN,
    ));
}

/// The payload of block `i` of a written container lies where its entry says.
proof fn lemma_payload_at(bs: Seq<BlockModel>, i: int)
    requires
        build_spec(bs) is Ok,
        0 <= i < bs.len(),
    ensures
        payload_offset(bs, i) + bs[i].data.len() <= encode_spec(bs).len(),
        encode_spec(bs).subrange(
            payload_offset(bs, i) as int,
            (payload_offset(bs, i) + bs[i].data.len()) as int,
        ) == bs[i].data,
{
    lemma_encoded_layout(bs);
    reveal(encode_spec);
    let ps = payloads(bs);
    let p = concat(ps);
    let e = encode_spec(bs);
    let off = payload_offset(bs, i);
    let len = bs[i].data.len();
    let start = concat(ps.take(i)).len();
    lemma_concat_slice(ps, i);
    assert(ps[i] == bs[i].data);
    assert(e =~= (header_bytes(bs.len()) + directory_bytes(bs)) + p);
    assert(e.subrange(off as int, (off + len) as int) =~= p.subrange(
        start as int,
        (start + len) as int,
    ));
}

/// Directory entry `i` of a written container reads back as block `i`.
proof fn lemma_entry_round_trip(bs: Seq<BlockModel>, i: int)
    requires
        build_spec(bs) is Ok,
        0 <= i < bs.len(),
    ensures
        entry_block(encode_spec(bs), i) == bs[i],
        entry_in_bounds(encode_spec(bs), i),
{
    lemma_encoded_layout(bs);
    lemma_entry_bytes_at(bs, i);
    lemma_payload_at(bs, i);
    let e = encode_spec(bs);
    let base = entry_base(i);
    let eb = entry_bytes(bs, i);
    let off = payload_offset(bs, i);
    let len = bs[i].data.len();
    lemma_le_bytes_roundtrip(off as u32);
    lemma_le_bytes_roundtrip(len as u32);
    lemma_le_u32_within(e, base, eb, 0);
    lemma_le_u32_within(e, base, eb, 4);
    assert(eb.subrange(0, 4) =~= le_bytes(off));
    assert(eb.subrange(4, 8) =~= le_bytes(len));
    lemma_le_u32_within(eb, 0, le_bytes(off), 0);
    lemma_le_u32_within(eb, 4, le_bytes(len), 0);
    lemma_padded_name(bs[i].name);
    assert(e.subrange(base + 12, base + 12 + NAME_LEN) =~= eb.subrange(12, 20));
    assert(eb.subrange(12, 20) =~= padded_name(bs[i].name));
}

/// A little-endian number read inside a slice of `s` is the one read at the same place in `s`.
proof fn lemma_le_u32_within(s: Seq<u8>, a: int, t: Seq<u8>, k: int)
    requires
        0 <= a,
        0 <= k,
        k + 4 <= t.len(),
        a + t.len() <= s.len(),
        s.subrange(a, a + t.len()) == t,
    ensures
        le_u32(s, a + k) == le_u32(t, k),
{
    assert(s[a + k] == s.subrange(a, a + t.len())[k]);
    assert(s[a + k + 1] == s.subrange(a, a + t.len())[k + 1]);
    assert(s[a + k + 2] == s.subrange(a, a + t.len())[k + 2]);
    assert(s[a + k + 3] == s.subrange(a, a + t.len())[k + 3]);
}

/// Reading back a container written for a list of blocks gives that list: the same names,
/// payloads and order.
#[verifier::rlimit(80)]
pub proof fn lemma_round_trip(bs: Seq<BlockModel>)
    requires
        build_spec(bs) is Ok,
    ensures
        parse_blocks_spec(encode_spec(bs)) == Ok::<Seq<BlockModel>, BPK1Error>(bs),
{
    lemma_encoded_layout(bs);
    let n = bs.len();
    let e = encode_spec(bs);
    lemma_le_bytes_roundtrip(n as u32);
    reveal(encode_spec);
    assert(has_magic(e));
    assert(block_count(e) == n);
    assert forall|i: int| 0 <= i < n implies #[trigger] entry_block(e, i) == bs[i]
        && entry_in_bounds(e, i) by {
        lemma_entry_round_trip(bs, i);
    }
    assert(e.len() >= HEADER_LEN + ENTRY_LEN * block_count(e));
    assert forall|i: int| 0 <= i < n implies #[trigger] entry_in_bounds(e, i) by {
        lemma_entry_round_trip(bs, i);
    }
    assert(Seq::new(block_count(e), |i: int| entry_block(e, i)) =~= bs);
}

/// A build result as the contracts see it.
pub open spec fn build_result_view(r: Result<Vec<u8>, BuildError>) -> Result<Seq<u8>, BuildError> {
    match r {
        Ok(v) => Ok(v@),
        Err(e) => Err(e),
    }
}

/// Appends the four bytes of `x`, least significant first.
fn push_u32_le(out: &mut Vec<u8>, x: u32)
    ensures
        final(out)@ == old(out)@ + le_bytes(x as nat),
{
    let b0 = (x & 0xff) as u8;
    let b1 = ((x >> 8) & 0xff) as u8;
    let b2 = ((x >> 16) & 0xff) as u8;
    let b3 = ((x >> 24) & 0xff) as u8;
    assert(b0 == (x % 0x100) as u8 && b1 == ((x / 0x100) % 0x100) as u8 && b2 == ((x / 0x10000)
        % 0x100) as u8 && b3 == ((x / 0x1000000) % 0x100) as u8) by (bit_vector)
        requires
            b0 == (x & 0xff) as u8,
            b1 == ((x >> 8) & 0xff) as u8,
            b2 == ((x >> 16) & 0xff) as u8,
            b3 == ((x >> 24) & 0xff) as u8,
    ;
    out.push(b0);
    out.push(b1);
    out.push(b2);
    out.push(b3);
    assert(final(out)@ =~= old(out)@ + le_bytes(x as nat));
}

/// Whether `name` fits a directory entry's name region and reads back whole.
pub fn name_is_valid(name: &[u8]) -> (r: bool)
    ensures
        r == name_fits(name@),
{
    if name.len() > NAME_LEN {
        return false;
    }
    let mut i: usize = 0;
    while i < name.len()
        invariant
            i <= name.len(),
            forall|j: int| 0 <= j < i ==> name@[j] != 0,
        decreases name.len() - i,
    {
        if name[i] == 0 {
            return false;
        }
        i = i + 1;
    }
    true
}

/// Appends a name followed by NUL bytes up to the length of a name region.
fn push_padded_name(out: &mut Vec<u8>, name: &[u8])
    requires
        name.len() <= NAME_LEN,
    ensures
        final(out)@ == old(out)@ + padded_name(name@),
{
    let ghost start = out@;
    let mut i: usize = 0;
    while i < name.len()
        invariant
            i <= name.len() <= NAME_LEN,
            out@ == start + name@.take(i as int),
        decreases name.len() - i,
    {
        out.push(name[i]);
        i = i + 1;
        assert(out@ =~= start + name@.take(i as int));
    }
    assert(name@.take(i as int) =~= name@);
    let mut k: usize = name.len();
    while k < NAME_LEN
        invariant
            name.len() <= k <= NAME_LEN,
            out@ == start + name@ + Seq::new((k - name.len()) as nat, |j: int| 0u8),
        decreases NAME_LEN - k,
    {
        out.push(0);
        k = k + 1;
        assert(out@ =~= start + name@ + Seq::new((k - name.len()) as nat, |j: int| 0u8));
    }
}

/// Writes a container holding `blocks` in list order: the header, a directory whose
/// offsets lay the payloads out one after the other, then the payloads. Checksums are
/// written as zero.
pub fn bytes_from_bpk1_blocks(blocks: &[BPK1Block]) -> (r: Result<Vec<u8>, BuildError>)
    ensures
        build_result_view(r) == build_spec(blocks_view(blocks@)),
{
    let ghost bs = blocks_view(blocks@);
    let ghost ps = payloads(bs);
    let n = blocks.len();
    let mut i: usize = 0;
    while i < n
        invariant
            n == blocks.len() == bs.len(),
            bs == blocks_view(blocks@),
            i <= n,
            forall|j: int| 0 <= j < i ==> name_fits(#[trigger] bs[j].name),
        decreases n - i,
    {
        if !name_is_valid(blocks[i].name.as_slice()) {
            assert(!name_fits(bs[i as int].name));
            return Err(BuildError::InvalidName);
        }
        i = i + 1;
    }
    assert(!exists|j: int| 0 <= j < bs.len() && !name_fits(#[trigger] bs[j].name));
    proof {
        lemma_concat_take_len(ps, n as int);
        assert(ps.take(n as int) =~= ps);
        assert(ps.take(0) =~= Seq::<Seq<u8>>::empty());
    }
    if n > (0xffff_ffffusize - HEADER_LEN) / ENTRY_LEN {
        assert(encoded_len(bs) > u32::MAX) by (nonlinear_arith)
            requires
                n > (0xffff_ffff - HEADER_LEN) / (ENTRY_LEN as int),
                encoded_len(bs) >= HEADER_LEN + ENTRY_LEN * n,
        ;
        return Err(BuildError::TooLarge);
    }
    let mut total: u64 = (HEADER_LEN + ENTRY_LEN * n) as u64;
    let mut k: usize = 0;
    while k < n
        invariant
            n == blocks.len() == bs.len(),
            bs == blocks_view(blocks@),
            ps == payloads(bs),
            k <= n,
            total == payload_offset(bs, k as int),
            total <= u32::MAX,
            forall|j: int| 0 <= j < bs.len() ==> name_fits(#[trigger] bs[j].name),
        decreases n - k,
    {
        proof {
            lemma_concat_take_step(ps, k as int);
        }
        let len = blocks[k].data.len() as u64;
        if len > 0xffff_ffff - total {
            proof {
                lemma_concat_take_len(ps, k + 1);
                assert(ps.take(n as int) =~= ps);
            }
            return Err(BuildError::TooLarge);
        }
        total = total + len;
        k = k + 1;
    }
    assert(ps.take(n as int) =~= ps);
    assert(encoded_len(bs) <= u32::MAX);
    let mut out: Vec<u8> = Vec::new();
    out.push(0x42);
    out.push(0x50);
    out.push(0x4b);
    out.push(0x31);
    push_u32_le(&mut out, n as u32);
    let mut z: usize = 8;
    while z < HEADER_LEN
        invariant
            8 <= z <= HEADER_LEN,
            out@ == seq![0x42u8, 0x50u8, 0x4bu8, 0x31u8] + le_bytes(n as nat) + Seq::new(
                (z - 8) as nat,
                |j: int| 0u8,
            ),
        decreases HEADER_LEN - z,
    {
        out.push(0);
        z = z + 1;
        assert(out@ =~= seq![0x42u8, 0x50u8, 0x4bu8, 0x31u8] + le_bytes(n as nat) + Seq::new(
            (z - 8) as nat,
            |j: int| 0u8,
        ));
    }
    let ghost entries = Seq::new(n as nat, |j: int| entry_bytes(bs, j));
    assert(entries.take(0) =~= Seq::<Seq<u8>>::empty());
    let mut offset: u32 = (HEADER_LEN + ENTRY_LEN * n) as u32;
    let mut e: usize = 0;
    while e < n
        invariant
            n == blocks.len() == bs.len(),
            bs == blocks_view(blocks@),
            ps == payloads(bs),
            entries == Seq::new(n as nat, |j: int| entry_bytes(bs, j)),
            forall|j: int| 0 <= j < bs.len() ==> name_fits(#[trigger] bs[j].name),
            encoded_len(bs) <= u32::MAX,
            e <= n,
            offset == payload_offset(bs, e as int),
            out@ == header_bytes(n as nat) + concat(entries.take(e as int)),
        decreases n - e,
    {
        proof {
            lemma_concat_take_step(ps, e as int);
            lemma_concat_take_len(ps, e + 1);
            assert(ps.take(n as int) =~= ps);
            lemma_concat_take_step(entries, e as int);
        }
        let size = blocks[e].data.len() as u32;
        push_u32_le(&mut out, offset);
        push_u32_le(&mut out, size);
        push_u32_le(&mut out, 0);
        push_padded_name(&mut out, blocks[e].name.as_slice());
        assert(out@ =~= header_bytes(n as nat) + concat(entries.take(e + 1)));
        offset = offset + size;
        e = e + 1;
    }
    assert(entries.take(n as int) =~= entries);
    assert(ps.take(0) =~= Seq::<Seq<u8>>::empty());
    let mut q: usize = 0;
    while q < n
        invariant
            n == blocks.len() == bs.len(),
            bs == blocks_view(blocks@),
            ps == payloads(bs),
            q <= n,
            out@ == header_bytes(n as nat) + directory_bytes(bs) + concat(ps.take(q as int)),
        decreases n - q,
    {
        proof {
            lemma_concat_take_step(ps, q as int);
        }
        out.extend_from_slice(blocks[q].data.as_slice());
        q = q + 1;
    }
    assert(ps.take(n as int) =~= ps);
    proof {
        reveal(encode_spec);
    }
    Ok(out)
}

/// What reading a container gives once the input lacked the magic and went through the
/// decompressor: nothing decompressed, or bytes that are again no container, give `BadMagic`.
pub open spec fn decompressed_spec(out: Option<Seq<u8>>) -> Result<Seq<BlockModel>, BPK1Error> {
    match out {
        None => Err(BPK1Error::BadMagic),
        Some(d) => parse_blocks_spec(d),
    }
}

/// Optional bytes as the contracts see them.
pub open spec fn option_view(o: Option<Vec<u8>>) -> Option<Seq<u8>> {
    match o {
        None => None,
        Some(v) => Some(v@),
    }
}

/// Bytes that start with `BPK1` are read as they stand, whatever the decompressor would do
/// with them; bytes that do not, and that the decompressor cannot expand or expands to
/// something without the magic, fail with `BadMagic`.
pub proof fn lemma_magic_detection<F: Fn(&[u8]) -> Option<Vec<u8>>>(
    decompress: F,
    d: Seq<u8>,
    r: Result<Seq<BlockModel>, BPK1Error>,
)
    ensures
        has_magic(d) ==> (blocks_read(decompress, d, r) <==> r == parse_blocks_spec(d)),
        decompressed_spec(None) == Err::<Seq<BlockModel>, BPK1Error>(BPK1Error::BadMagic),
        forall|out: Seq<u8>|
            !has_magic(out) ==> #[trigger] decompressed_spec(Some(out)) == Err::<
                Seq<BlockModel>,
                BPK1Error,
            >(BPK1Error::BadMagic),
{
}

/// Reads the blocks of a container from what the decompressor made of an input that did not
/// start with the magic.
pub fn blocks_from_decompressed(out: Option<Vec<u8>>) -> (r: Result<Vec<BPK1Block>, BPK1Error>)
    ensures
        blocks_result_view(r) == decompressed_spec(option_view(out)),
{
    match out {
        None => Err(BPK1Error::BadMagic),
        Some(d) => parse_blocks(d.as_slice()),
    }
}

/// Whether `r` is what reading container bytes `d` can give: `d` itself when it starts with
/// `BPK1`, otherwise what one output of `decompress` on `d` holds.
pub open spec fn blocks_read<F: Fn(&[u8]) -> Option<Vec<u8>>>(
    decompress: F,
    d: Seq<u8>,
    r: Result<Seq<BlockModel>, BPK1Error>,
) -> bool {
    if has_magic(d) {
        r == parse_blocks_spec(d)
    } else {
        exists|x: &[u8], out: Option<Vec<u8>>|
            x@ == d && decompress.ensures((x,), out) && r == decompressed_spec(option_view(out))
    }
}

/// Reads the blocks of a container. Input that starts with `BPK1` is read as it is and never
/// handed to `decompress`; other input is decompressed first and must start with `BPK1`
/// afterwards.
pub fn decode_blocks<F: Fn(&[u8]) -> Option<Vec<u8>>>(data: &[u8], decompress: &F) -> (r: Result<
    Vec<BPK1Block>,
    BPK1Error,
>)
    requires
        forall|d: &[u8]| decompress.requires((d,)),
    ensures
        blocks_read(*decompress, data@, blocks_result_view(r)),
{
    if has_bpk1_magic(data) {
        parse_blocks(data)
    } else {
        let out = decompress(data);
        blocks_from_decompressed(out)
    }
}

} // verus!
