//! A read cursor over a byte slice: little-endian integers, fixed-size chunks and NUL-padded
//! strings.

use vstd::prelude::*;
use vstd::array::array_fill_for_copy_types;
use vstd::slice::slice_to_vec;

verus! {

/// The number that four bytes starting at `at` encode, least significant byte first.
pub open spec fn le_u32(s: Seq<u8>, at: int) -> nat {
    (s[at] + 0x100 * s[at + 1] + 0x10000 * s[at + 2] + 0x1000000 * s[at + 3]) as nat
}

/// Combines four bytes, least significant first, into a `u32`.
pub fn u32_from_le(b0: u8, b1: u8, b2: u8, b3: u8) -> (r: u32)
    ensures
        r == b0 as nat + 0x100 * b1 + 0x10000 * b2 + 0x1000000 * b3,
{
    let r = (b0 as u32) | ((b1 as u32) << 8) | ((b2 as u32) << 16) | ((b3 as u32) << 24);
    assert(r == b0 as nat + 0x100 * b1 + 0x10000 * b2 + 0x1000000 * b3) by (bit_vector)
        requires
            r == (b0 as u32) | ((b1 as u32) << 8) | ((b2 as u32) << 16) | ((b3 as u32) << 24),
    ;
    r
}

/// The number that two bytes starting at `at` encode, least significant byte first.
pub open spec fn le_u16(s: Seq<u8>, at: int) -> nat {
    (s[at] + 0x100 * s[at + 1]) as nat
}

/// The number that four bytes starting at `at` encode, most significant byte first.
pub open spec fn be_u32(s: Seq<u8>, at: int) -> nat {
    (0x1000000 * s[at] + 0x10000 * s[at + 1] + 0x100 * s[at + 2] + s[at + 3]) as nat
}

/// Combines two bytes, least significant first, into a `u16`.
pub fn u16_from_le(b0: u8, b1: u8) -> (r: u16)
    ensures
        r == b0 as nat + 0x100 * b1,
{
    let r = (b0 as u16) | ((b1 as u16) << 8);
    assert(r == b0 as nat + 0x100 * b1) by (bit_vector)
        requires
            r == (b0 as u16) | ((b1 as u16) << 8),
    ;
    r
}

/// The bytes of `s` before its first NUL, or all of `s` when it holds none.
pub open spec fn until_nul(s: Seq<u8>) -> Seq<u8>
    decreases s.len(),
{
    if s.len() == 0 || s[0] == 0 {
        Seq::empty()
    } else {
        seq![s[0]] + until_nul(s.drop_first())
    }
}

/// When the first NUL of `s` is at `k`, or `s` holds none and `k` is its length,
/// `until_nul(s)` is the first `k` bytes of `s`.
pub proof fn lemma_until_nul_at(s: Seq<u8>, k: int)
    requires
        0 <= k <= s.len(),
        forall|j: int| 0 <= j < k ==> s[j] != 0,
        k == s.len() || s[k] == 0,
    ensures
        until_nul(s) == s.take(k),
    decreases k,
{
    if k == 0 {
        assert(s.take(0) =~= Seq::<u8>::empty());
    } else {
        lemma_until_nul_at(s.drop_first(), k - 1);
        assert(s.take(k) =~= seq![s[0]] + s.drop_first().take(k - 1));
    }
}

/// The bytes of `region` before its first NUL, or all of them when it holds none.
pub fn name_until_nul(region: &[u8]) -> (r: Vec<u8>)
    ensures
        r@ == until_nul(region@),
{
    let mut out: Vec<u8> = Vec::new();
    let mut i: usize = 0;
    while i < region.len() && region[i] != 0
        invariant
            i <= region.len(),
            out@ == region@.take(i as int),
            forall|j: int| 0 <= j < i ==> region@[j] != 0,
        decreases region.len() - i,
    {
        out.push(region[i]);
        i = i + 1;
        assert(out@ =~= region@.take(i as int));
    }
    proof {
        lemma_until_nul_at(region@, i as int);
    }
    out
}

/// `length`, or the length of `s` when that is shorter.
pub open spec fn min_len(length: usize, s: Seq<u8>) -> int {
    if length <= s.len() {
        length as int
    } else {
        s.len() as int
    }
}

/// Reads that consume bytes from the front of what is left to read.
pub trait ReadExt {
    /// The bytes that are still to be read.
    spec fn unread(&self) -> Seq<u8>;

    /// Reads exactly `num` bytes, or nothing when fewer are left.
    fn read_num_of_bytes(&mut self, num: usize) -> (r: Option<Vec<u8>>)
        ensures
            num <= old(self).unread().len() ==> (r matches Some(v) && v@ == old(self).unread().take(
                num as int,
            )) && final(self).unread() == old(self).unread().skip(num as int),
            num > old(self).unread().len() ==> r is None && final(self).unread() == old(
                self,
            ).unread(),
    ;

    /// Reads exactly `N` bytes into an array, or nothing when fewer are left.
    fn read_const_num_of_bytes<const N: usize>(&mut self) -> (r: Option<[u8; N]>)
        ensures
            N <= old(self).unread().len() ==> (r matches Some(a) && a@ == old(self).unread().take(
                N as int,
            )) && final(self).unread() == old(self).unread().skip(N as int),
            N > old(self).unread().len() ==> r is None && final(self).unread() == old(
                self,
            ).unread(),
    ;

    /// Reads a string of at most `length` bytes that may end early with a NUL, and always
    /// moves on by `length` bytes, or to the end when fewer are left.
    fn read_null_padded_string(&mut self, length: usize) -> (r: Vec<u8>)
        ensures
            r@ == until_nul(old(self).unread().take(min_len(length, old(self).unread()))),
            final(self).unread() == old(self).unread().skip(min_len(length, old(self).unread())),
    ;

    /// Reads everything that is left.
    fn read_to_vec(&mut self) -> (r: Vec<u8>)
        ensures
            r@ == old(self).unread(),
            final(self).unread().len() == 0,
    ;

    /// Reads a little-endian `u32`, or nothing when fewer than four bytes are left.
    fn read_u32_le(&mut self) -> (r: Option<u32>)
        ensures
            4 <= old(self).unread().len() ==> r == Some(le_u32(old(self).unread(), 0) as u32)
                && final(self).unread() == old(self).unread().skip(4),
            old(self).unread().len() < 4 ==> r is None && final(self).unread() == old(
                self,
            ).unread(),
    ;
}

/// A position in a borrowed byte slice.
pub struct ByteCursor<'a> {
    data: &'a [u8],
    pos: usize,
}

impl<'a> ByteCursor<'a> {
    /// The whole slice the cursor reads from.
    pub closed spec fn source(&self) -> Seq<u8> {
        self.data@
    }

    /// How far into the slice the cursor stands.
    pub closed spec fn position_spec(&self) -> nat {
        self.pos as nat
    }

    /// A cursor at the start of `data`.
    pub fn new(data: &'a [u8]) -> (c: ByteCursor<'a>)
        ensures
            c.source() == data@,
            c.position_spec() == 0,
            c.unread() == data@,
    {
        ByteCursor { data, pos: 0 }
    }

    /// How far into the slice the cursor stands.
    pub fn position(&self) -> (p: usize)
        ensures
            p == self.position_spec(),
    {
        self.pos
    }

    /// Moves to the absolute position `pos`; a position past the end is refused and leaves
    /// the cursor where it was.
    pub fn set_position(&mut self, pos: usize) -> (ok: bool)
        ensures
            ok == (pos <= old(self).source().len()),
            final(self).source() == old(self).source(),
            ok ==> final(self).position_spec() == pos && final(self).unread() == old(
                self,
            ).source().skip(pos as int),
            !ok ==> *final(self) == *old(self),
    {
        if pos <= self.data.len() {
            self.pos = pos;
            true
        } else {
            false
        }
    }
}

impl<'a> ReadExt for ByteCursor<'a> {
    closed spec fn unread(&self) -> Seq<u8> {
        if self.pos <= self.data@.len() {
            self.data@.skip(self.pos as int)
        } else {
            Seq::empty()
        }
    }

    fn read_num_of_bytes(&mut self, num: usize) -> (r: Option<Vec<u8>>)
        ensures
            final(self).source() == old(self).source(),
    {
        if num == 0 {
            assert(self.unread().skip(0) =~= self.unread());
            Some(Vec::new())
        } else if self.pos <= self.data.len() && num <= self.data.len() - self.pos {
            let v = slice_to_vec(&self.data[self.pos..self.pos + num]);
            assert(v@ =~= self.data@.skip(self.pos as int).take(num as int));
            let ghost before = self.data@.skip(self.pos as int);
            self.pos = self.pos + num;
            assert(self.data@.skip(self.pos as int) =~= before.skip(num as int));
            Some(v)
        } else {
            None
        }
    }

    fn read_const_num_of_bytes<const N: usize>(&mut self) -> (r: Option<[u8; N]>)
        ensures
            final(self).source() == old(self).source(),
    {
        if self.pos <= self.data.len() && N <= self.data.len() - self.pos {
            let mut a: [u8; N] = array_fill_for_copy_types(0u8);
            let p = self.pos;
            let data = self.data;
            let ghost before = data@.skip(p as int);
            let mut j: usize = 0;
            while j < N
                invariant
                    j <= N,
                    p + N <= data.len(),
                    before == data@.skip(p as int),
                    forall|k: int| 0 <= k < j ==> a@[k] == before[k],
                decreases N - j,
            {
                a[j] = data[p + j];
                j = j + 1;
            }
            assert(a@ =~= before.take(N as int));
            self.pos = self.pos + N;
            assert(self.data@.skip(self.pos as int) =~= before.skip(N as int));
            Some(a)
        } else if N == 0 {
            let a: [u8; N] = array_fill_for_copy_types(0u8);
            assert(a@ =~= self.unread().take(0));
            assert(self.unread().skip(0) =~= self.unread());
            Some(a)
        } else {
            None
        }
    }

    fn read_null_padded_string(&mut self, length: usize) -> (r: Vec<u8>)
        ensures
            final(self).source() == old(self).source(),
    {
        if self.pos > self.data.len() {
            assert(self.unread().take(0) =~= Seq::<u8>::empty());
            assert(self.unread().skip(0) =~= self.unread());
            return Vec::new();
        }
        let left = self.data.len() - self.pos;
        let n = if length <= left {
            length
        } else {
            left
        };
        let ghost before = self.unread();
        let name = name_until_nul(&self.data[self.pos..self.pos + n]);
        assert(self.data@.subrange(self.pos as int, self.pos + n) =~= before.take(n as int));
        self.pos = self.pos + n;
        assert(self.data@.skip(self.pos as int) =~= before.skip(n as int));
        name
    }

    fn read_to_vec(&mut self) -> (r: Vec<u8>)
        ensures
            final(self).source() == old(self).source(),
    {
        if self.pos <= self.data.len() {
            let v = slice_to_vec(&self.data[self.pos..self.data.len()]);
            assert(v@ =~= self.data@.skip(self.pos as int));
            self.pos = self.data.len();
            v
        } else {
            Vec::new()
        }
    }

    fn read_u32_le(&mut self) -> (r: Option<u32>)
        ensures
            final(self).source() == old(self).source(),
    {
        if self.pos <= self.data.len() && 4 <= self.data.len() - self.pos {
            let p = self.pos;
            let v = u32_from_le(self.data[p], self.data[p + 1], self.data[p + 2], self.data[p + 3]);
            let ghost before = self.data@.skip(p as int);
            self.pos = p + 4;
            assert(self.data@.skip(self.pos as int) =~= before.skip(4));
            Some(v)
        } else {
            None
        }
    }
}

} // verus!
