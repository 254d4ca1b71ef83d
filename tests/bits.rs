use libdoodle::bits::PickBit;

#[test]
fn picks_single_bits() {
    assert!(0b0000_0100u8.pick_bit(2));
    assert!(!0b0000_0100u8.pick_bit(3));
    assert!(0x8000u16.pick_bit(15));
    assert!(0x8000_0000u32.pick_bit(31));
    assert!((1u64 << 63).pick_bit(63));
    assert!((1u128 << 127).pick_bit(127));
    assert!(!(1u128 << 127).pick_bit(126));
}

#[test]
fn picks_inclusive_ranges() {
    assert_eq!(0b1011_0110u8.pick_bits(4..=7), 0b1011);
    assert_eq!(0b1011_0110u8.pick_bits(1..=3), 0b011);
    assert_eq!(0b1011_0110u8.pick_bits(2..=2), 1);
    assert_eq!(0xABCDu16.pick_bits(4..=11), 0xBC);
    assert_eq!(0x1234_5678u32.pick_bits(0..=27), 0x0234_5678);
    assert_eq!(0xF000_0000_0000_0001u64.pick_bits(60..=63), 0xF);
    assert_eq!((0xFFu128 << 120).pick_bits(119..=124), 0b111110);
}

#[test]
fn whole_width_gives_the_value_back() {
    for v in [0u8, 1, 0x5A, 0xFF] {
        assert_eq!(v.pick_bits(0..=7), v);
        for i in 0..8 {
            assert_eq!(v.pick_bit(i), (v >> i) & 1 == 1);
        }
    }
    assert_eq!(0xBEEFu16.pick_bits(0..=15), 0xBEEF);
    assert_eq!(0xDEAD_BEEFu32.pick_bits(0..=31), 0xDEAD_BEEF);
    assert_eq!(u64::MAX.pick_bits(0..=63), u64::MAX);
    assert_eq!(u128::MAX.pick_bits(0..=127), u128::MAX);
}
