//! Bitfield access on unsigned integers.

use core::ops::RangeInclusive;
use vstd::prelude::*;

verus! {

/// Relies on `RangeInclusive::start`: the lower bound given at construction, while the range
/// has not been iterated.
pub assume_specification<Idx>[ RangeInclusive::<Idx>::start ](r: &RangeInclusive<Idx>) -> (s: &Idx)
    ensures
        !r@.exhausted ==> *s == r@.start,
;

/// Relies on `RangeInclusive::end`: the upper bound given at construction, while the range
/// has not been iterated.
pub assume_specification<Idx>[ RangeInclusive::<Idx>::end ](r: &RangeInclusive<Idx>) -> (e: &Idx)
    ensures
        !r@.exhausted ==> *e == r@.end,
;

/// Reads single bits and inclusive bit ranges out of an unsigned integer.
pub trait PickBit: Sized {
    /// The number of bits in the type.
    spec fn width() -> nat;

    /// Whether bit `bit` (0 is the least significant) is set.
    spec fn bit_set(&self, bit: nat) -> bool;

    /// Bits `start..=end`, shifted down so that bit `start` becomes bit 0.
    spec fn field(&self, start: nat, end: nat) -> Self;

    fn pick_bit(&self, bit: usize) -> (r: bool)
        requires
            bit < Self::width(),
        ensures
            r == self.bit_set(bit as nat),
    ;

    fn pick_bits(&self, bits: RangeInclusive<usize>) -> (r: Self)
        requires
            !bits@.exhausted,
            bits@.start <= bits@.end < Self::width(),
        ensures
            r == self.field(bits@.start as nat, bits@.end as nat),
    ;
}

impl PickBit for u8 {
    open spec fn width() -> nat {
        8
    }

    open spec fn bit_set(&self, bit: nat) -> bool {
        (*self >> bit) & 1 == 1
    }

    open spec fn field(&self, start: nat, end: nat) -> u8 {
        (*self >> start) & (u8::MAX >> ((7 - (end - start)) as u8))
    }

    fn pick_bit(&self, bit: usize) -> (r: bool) {
        let v = *self;
        let b = bit as u8;
        assert((v & (1u8 << b) != 0) == ((v >> b) & 1 == 1)) by (bit_vector)
            requires
                b < 8,
        ;
        v & (1u8 << b) != 0
    }

    fn pick_bits(&self, bits: RangeInclusive<usize>) -> (r: u8) {
        let v = *self;
        let s = *bits.start() as u8;
        let e = *bits.end() as u8;
        assert(1u8 << e >= 1) by (bit_vector)
            requires
                e < 8,
        ;
        let mask: u8 = (((1u8 << e) - 1) << 1) | 1;
        assert((v & mask) >> s == (v >> s) & (u8::MAX >> ((7 - (e - s)) as u8))) by (bit_vector)
            requires
                s <= e < 8,
                mask == ((((1u8 << e) - 1) as u8) << 1) | 1,
        ;
        (v & mask) >> s
    }
}

impl PickBit for u16 {
    open spec fn width() -> nat {
        16
    }

    open spec fn bit_set(&self, bit: nat) -> bool {
        (*self >> bit) & 1 == 1
    }

    open spec fn field(&self, start: nat, end: nat) -> u16 {
        (*self >> start) & (u16::MAX >> ((15 - (end - start)) as u16))
    }

    fn pick_bit(&self, bit: usize) -> (r: bool) {
        let v = *self;
        let b = bit as u16;
        assert((v & (1u16 << b) != 0) == ((v >> b) & 1 == 1)) by (bit_vector)
            requires
                b < 16,
        ;
        v & (1u16 << b) != 0
    }

    fn pick_bits(&self, bits: RangeInclusive<usize>) -> (r: u16) {
        let v = *self;
        let s = *bits.start() as u16;
        let e = *bits.end() as u16;
        assert(1u16 << e >= 1) by (bit_vector)
            requires
                e < 16,
        ;
        let mask: u16 = (((1u16 << e) - 1) << 1) | 1;
        assert((v & mask) >> s == (v >> s) & (u16::MAX >> ((15 - (e - s)) as u16))) by (bit_vector)
            requires
                s <= e < 16,
                mask == ((((1u16 << e) - 1) as u16) << 1) | 1,
        ;
        (v & mask) >> s
    }
}

impl PickBit for u32 {
    open spec fn width() -> nat {
        32
    }

    open spec fn bit_set(&self, bit: nat) -> bool {
        (*self >> bit) & 1 == 1
    }

    open spec fn field(&self, start: nat, end: nat) -> u32 {
        (*self >> start) & (u32::MAX >> ((31 - (end - start)) as u32))
    }

    fn pick_bit(&self, bit: usize) -> (r: bool) {
        let v = *self;
        let b = bit as u32;
        assert((v & (1u32 << b) != 0) == ((v >> b) & 1 == 1)) by (bit_vector)
            requires
                b < 32,
        ;
        v & (1u32 << b) != 0
    }

    fn pick_bits(&self, bits: RangeInclusive<usize>) -> (r: u32) {
        let v = *self;
        let s = *bits.start() as u32;
        let e = *bits.end() as u32;
        assert(1u32 << e >= 1) by (bit_vector)
            requires
                e < 32,
        ;
        let mask: u32 = (((1u32 << e) - 1) << 1) | 1;
        assert((v & mask) >> s == (v >> s) & (u32::MAX >> ((31 - (e - s)) as u32))) by (bit_vector)
            requires
                s <= e < 32,
                mask == ((((1u32 << e) - 1) as u32) << 1) | 1,
        ;
        (v & mask) >> s
    }
}

impl PickBit for u64 {
    open spec fn width() -> nat {
        64
    }

    open spec fn bit_set(&self, bit: nat) -> bool {
        (*self >> bit) & 1 == 1
    }

    open spec fn field(&self, start: nat, end: nat) -> u64 {
        (*self >> start) & (u64::MAX >> ((63 - (end - start)) as u64))
    }

    fn pick_bit(&self, bit: usize) -> (r: bool) {
        let v = *self;
        let b = bit as u64;
        assert((v & (1u64 << b) != 0) == ((v >> b) & 1 == 1)) by (bit_vector)
            requires
                b < 64,
        ;
        v & (1u64 << b) != 0
    }

    fn pick_bits(&self, bits: RangeInclusive<usize>) -> (r: u64) {
        let v = *self;
        let s = *bits.start() as u64;
        let e = *bits.end() as u64;
        assert(1u64 << e >= 1) by (bit_vector)
            requires
                e < 64,
        ;
        let mask: u64 = (((1u64 << e) - 1) << 1) | 1;
        assert((v & mask) >> s == (v >> s) & (u64::MAX >> ((63 - (e - s)) as u64))) by (bit_vector)
            requires
                s <= e < 64,
                mask == ((((1u64 << e) - 1) as u64) << 1) | 1,
        ;
        (v & mask) >> s
    }
}

impl PickBit for u128 {
    open spec fn width() -> nat {
        128
    }

    open spec fn bit_set(&self, bit: nat) -> bool {
        (*self >> bit) & 1 == 1
    }

    open spec fn field(&self, start: nat, end: nat) -> u128 {
        (*self >> start) & (u128::MAX >> ((127 - (end - start)) as u128))
    }

    fn pick_bit(&self, bit: usize) -> (r: bool) {
        let v = *self;
        let b = bit as u128;
        assert((v & (1u128 << b) != 0) == ((v >> b) & 1 == 1)) by (bit_vector)
            requires
                b < 128,
        ;
        v & (1u128 << b) != 0
    }

    fn pick_bits(&self, bits: RangeInclusive<usize>) -> (r: u128) {
        let v = *self;
        let s = *bits.start() as u128;
        let e = *bits.end() as u128;
        assert(1u128 << e >= 1) by (bit_vector)
            requires
                e < 128,
        ;
        let mask: u128 = (((1u128 << e) - 1) << 1) | 1;
        assert((v & mask) >> s == (v >> s) & (u128::MAX >> ((127 - (e - s)) as u128)))
            by (bit_vector)
            requires
                s <= e < 128,
                mask == ((((1u128 << e) - 1) as u128) << 1) | 1,
        ;
        (v & mask) >> s
    }
}

/// Picking the whole width of a `u8` gives the value back, and picking one bit tells whether
/// that bit of the value is set.
pub proof fn lemma_pick_whole_u8(v: u8, i: nat)
    requires
        i < 8,
    ensures
        v.field(0, 7) == v,
        v.bit_set(i) == ((v >> i) & 1 == 1),
{
    assert((v >> 0u32) & (u8::MAX >> 0u32) == v) by (bit_vector);
}

/// Picking the whole width of a `u16` gives the value back, and picking one bit tells whether
/// that bit of the value is set.
pub proof fn lemma_pick_whole_u16(v: u16, i: nat)
    requires
        i < 16,
    ensures
        v.field(0, 15) == v,
        v.bit_set(i) == ((v >> i) & 1 == 1),
{
    assert((v >> 0u32) & (u16::MAX >> 0u32) == v) by (bit_vector);
}

/// Picking the whole width of a `u32` gives the value back, and picking one bit tells whether
/// that bit of the value is set.
pub proof fn lemma_pick_whole_u32(v: u32, i: nat)
    requires
        i < 32,
    ensures
        v.field(0, 31) == v,
        v.bit_set(i) == ((v >> i) & 1 == 1),
{
    assert((v >> 0u32) & (u32::MAX >> 0u32) == v) by (bit_vector);
}

/// Picking the whole width of a `u64` gives the value back, and picking one bit tells whether
/// that bit of the value is set.
pub proof fn lemma_pick_whole_u64(v: u64, i: nat)
    requires
        i < 64,
    ensures
        v.field(0, 63) == v,
        v.bit_set(i) == ((v >> i) & 1 == 1),
{
    assert((v >> 0u32) & (u64::MAX >> 0u32) == v) by (bit_vector);
}

/// Picking the whole width of a `u128` gives the value back, and picking one bit tells whether
/// that bit of the value is set.
pub proof fn lemma_pick_whole_u128(v: u128, i: nat)
    requires
        i < 128,
    ensures
        v.field(0, 127) == v,
        v.bit_set(i) == ((v >> i) & 1 == 1),
{
    assert((v >> 0u32) & (u128::MAX >> 0u32) == v) by (bit_vector);
}

} // verus!
