//! Text fields: UTF-16LE names up to the first zero unit, and UTF-8 strings.

use vstd::prelude::*;
use vstd::utf8::{decode_utf8, valid_utf8};

verus! {

/// What `String::from_utf16_lossy` makes of a sequence of UTF-16 code units.
pub uninterp spec fn utf16_lossy(units: Seq<u16>) -> Seq<char>;

/// Relies on `String::from_utf16_lossy`: decodes UTF-16, putting U+FFFD in place of each
/// unpaired surrogate. The result depends on the code units alone.
#[verifier::external_body]
fn string_from_utf16_lossy(units: &[u16]) -> (s: String)
    ensures
        s@ == utf16_lossy(units@),
        units@.len() == 0 ==> s@.len() == 0,
{
    String::from_utf16_lossy(units)
}

/// The little-endian 16-bit code units of `b`, two bytes each; an odd last byte is dropped.
pub open spec fn utf16_units(b: Seq<u8>) -> Seq<u16> {
    Seq::new(b.len() / 2, |i: int| (b[2 * i] + 0x100 * b[2 * i + 1]) as u16)
}

/// The units of `u` before its first zero unit, or all of them when it holds none.
pub open spec fn until_zero_unit(u: Seq<u16>) -> Seq<u16>
    decreases u.len(),
{
    if u.len() == 0 || u[0] == 0 {
        Seq::empty()
    } else {
        seq![u[0]] + until_zero_unit(u.drop_first())
    }
}

/// The code units of a NUL-padded UTF-16LE name field.
pub open spec fn name_units(b: Seq<u8>) -> Seq<u16> {
    until_zero_unit(utf16_units(b))
}

/// When the first zero unit of `u` is at `k`, or `u` holds none and `k` is its length,
/// `until_zero_unit(u)` is the first `k` units of `u`.
proof fn lemma_until_zero_unit_at(u: Seq<u16>, k: int)
    requires
        0 <= k <= u.len(),
        forall|j: int| 0 <= j < k ==> u[j] != 0,
        k == u.len() || u[k] == 0,
    ensures
        until_zero_unit(u) == u.take(k),
    decreases k,
{
    if k == 0 {
        assert(u.take(0) =~= Seq::<u16>::empty());
    } else {
        lemma_until_zero_unit_at(u.drop_first(), k - 1);
        assert(u.take(k) =~= seq![u[0]] + u.drop_first().take(k - 1));
    }
}

/// The code units of a NUL-padded UTF-16LE name field, up to the first zero unit.
pub fn name_units_from_bytes(bytes: &[u8]) -> (r: Vec<u16>)
    ensures
        r@ == name_units(bytes@),
{
    let ghost u = utf16_units(bytes@);
    let mut out: Vec<u16> = Vec::new();
    let mut i: usize = 0;
    let n = bytes.len() / 2;
    while i < n
        invariant
            n == bytes.len() / 2 == u.len(),
            u == utf16_units(bytes@),
            i <= n,
            out@ == u.take(i as int),
            forall|j: int| 0 <= j < i ==> u[j] != 0,
        decreases n - i,
    {
        let unit = (bytes[2 * i] as u16) | ((bytes[2 * i + 1] as u16) << 8);
        let lo = bytes[2 * i];
        let hi = bytes[2 * i + 1];
        assert(unit == lo + 0x100 * hi) by (bit_vector)
            requires
                unit == (lo as u16) | ((hi as u16) << 8),
        ;
        if unit == 0 {
            proof {
                lemma_until_zero_unit_at(u, i as int);
            }
            return out;
        }
        out.push(unit);
        i = i + 1;
        assert(out@ =~= u.take(i as int));
    }
    proof {
        lemma_until_zero_unit_at(u, i as int);
    }
    out
}

/// Decodes a NUL-padded UTF-16LE name field: the code units up to the first zero unit,
/// with U+FFFD for each unpaired surrogate.
pub fn name_from_bytes<const N: usize>(bytes: [u8; N]) -> (s: String)
    ensures
        s@ == utf16_lossy(name_units(bytes@)),
{
    let units = name_units_from_bytes(bytes.as_slice());
    string_from_utf16_lossy(units.as_slice())
}

/// Relies on `String::from_utf8`: it accepts exactly the valid UTF-8 byte sequences and keeps
/// the characters they encode.
#[verifier::external_body]
pub(crate) fn string_from_utf8(bytes: Vec<u8>) -> (r: Option<String>)
    ensures
        r is Some == valid_utf8(bytes@),
        r matches Some(s) ==> s@ == decode_utf8(bytes@),
{
    String::from_utf8(bytes).ok()
}

} // verus!
