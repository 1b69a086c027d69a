//! The tests that come with the bit operations.

use miker::bitops::bits_u32;
use miker::bitops::BitOps;

#[test]
fn test_get_bit_fn() {
    let foo = 0b1011_0010_1110_1000u32;

    let set_bits = [3, 5, 6, 7, 9, 12, 13, 15];
    for bit in set_bits {
        assert!(bits_u32::get_bit(foo, bit));
    }
    for bit in (0..u32::BITS).filter(|bit| !set_bits.contains(bit)) {
        assert!(!bits_u32::get_bit(foo, bit));
    }

    for bit in u32::BITS..u128::BITS {
        assert!(!bits_u32::get_bit(foo, bit));
    }
}

#[test]
fn test_trait_get_bit() {
    let foo = 0b1011_0010_1110_1000u32;

    let set_bits = [3, 5, 6, 7, 9, 12, 13, 15];
    for bit in set_bits {
        assert!(foo.get_bit(bit));
    }
    for bit in (0..u32::BITS).filter(|bit| !set_bits.contains(bit)) {
        assert!(!foo.get_bit(bit));
    }

    for bit in u32::BITS..u128::BITS {
        assert!(!foo.get_bit(bit));
    }
}

#[test]
fn test_set_bit_fn() {
    let foo = 0b1011_0010_1110_1000u32;

    assert_eq!(bits_u32::set_bit(foo, 0, true), 0b1011_0010_1110_1001);
    assert_eq!(bits_u32::set_bit(foo, 0, false), 0b1011_0010_1110_1000);
    assert_eq!(bits_u32::set_bit(foo, 5, true), 0b1011_0010_1110_1000);
    assert_eq!(bits_u32::set_bit(foo, 5, false), 0b1011_0010_1100_1000);
    assert_eq!(bits_u32::set_bit(foo, 13, true), 0b1011_0010_1110_1000);
    assert_eq!(bits_u32::set_bit(foo, 13, false), 0b1001_0010_1110_1000);
    assert_eq!(bits_u32::set_bit(foo, 28, true), foo | (1 << 28));
    assert_eq!(bits_u32::set_bit(foo, 28, false), foo);

    assert_eq!(bits_u32::set_bit(foo, u32::BITS, true), foo);
    assert_eq!(bits_u32::set_bit(foo, u32::BITS, false), foo);
}

#[test]
fn test_trait_set_bit() {
    let mut foo = 0b1011_0010_1110_1000u32;
    foo.set_bit(0, true);
    assert_eq!(foo, 0b1011_0010_1110_1001);
    foo.set_bit(0, false);
    assert_eq!(foo, 0b1011_0010_1110_1000);

    let mut foo = 0b1011_0010_1110_1000u32;
    foo.set_bit(5, true);
    assert_eq!(foo, 0b1011_0010_1110_1000);
    foo.set_bit(5, false);
    assert_eq!(foo, 0b1011_0010_1100_1000);

    let mut foo = 0b1011_0010_1110_1000u32;
    foo.set_bit(13, true);
    assert_eq!(foo, 0b1011_0010_1110_1000);
    foo.set_bit(13, false);
    assert_eq!(foo, 0b1001_0010_1110_1000);

    let mut foo = 0b1011_0010_1110_1000u32;
    foo.set_bit(28, true);
    assert_eq!(foo, foo | (1 << 28));
    foo.set_bit(28, false);
    assert_eq!(foo, foo);

    let mut foo = 0b1011_0010_1110_1000u32;
    foo.set_bit(u32::BITS, true);
    assert_eq!(foo, foo);
    foo.set_bit(u32::BITS, false);
    assert_eq!(foo, foo);
}

#[test]
fn test_get_bits_fn() {
    let foo = 0b1011_0010_1110_1000u32;

    assert_eq!(bits_u32::get_bits(foo, 0, 4), 0b1000);
    assert_eq!(bits_u32::get_bits(foo, 1, 7), 0b11_0100);
    assert_eq!(bits_u32::get_bits(foo, 4, 9), 0b0_1110);
    assert_eq!(bits_u32::get_bits(foo, 8, 16), 0b1011_0010);
    assert_eq!(bits_u32::get_bits(foo, 8, u32::BITS), 0b1011_0010);

    assert_eq!(bits_u32::get_bits(foo, 12, 2), 0);
}

#[test]
fn test_trait_get_bits() {
    let foo = 0b1011_0010_1110_1000u32;

    assert_eq!(foo.get_bits(0..4), 0b1000);
    assert_eq!(foo.get_bits(0..=3), foo.get_bits(0..4));
    assert_eq!(foo.get_bits(..4), foo.get_bits(0..4));
    assert_eq!(foo.get_bits(..=3), foo.get_bits(0..4));

    assert_eq!(foo.get_bits(1..7), 0b11_0100);
    assert_eq!(foo.get_bits(1..=6), foo.get_bits(1..7));

    assert_eq!(foo.get_bits(4..9), 0b0_1110);
    assert_eq!(foo.get_bits(4..=8), foo.get_bits(4..9));

    assert_eq!(foo.get_bits(8..16), 0b1011_0010);
    assert_eq!(foo.get_bits(8..=15), foo.get_bits(8..16));

    assert_eq!(foo.get_bits(8..u32::BITS), 0b1011_0010);
    assert_eq!(foo.get_bits(8..), foo.get_bits(8..u32::BITS));

    assert_eq!(foo.get_bits(..), foo);

    assert_eq!(foo.get_bits(12..2), 0);
}

#[test]
fn test_set_bits_fn() {
    let foo = 0b1011_0010_1110_1000u32;

    assert_eq!(bits_u32::set_bits(foo, 0, 4, 0b0101), 0b1011_0010_1110_0101);
    assert_eq!(
        bits_u32::set_bits(foo, 1, 7, 0b0_0001),
        0b1011_0010_1000_0010,
    );
    assert_eq!(
        bits_u32::set_bits(foo, 4, 9, 0b1_1100),
        0b1011_0011_1100_1000,
    );
    assert_eq!(
        bits_u32::set_bits(foo, 8, 16, 0b1010_0011),
        0b1010_0011_1110_1000,
    );
    assert_eq!(
        bits_u32::set_bits(foo, 8, u32::BITS, 0b0100_1111_0000_1011),
        0b0100_1111_0000_1011_1110_1000,
    );

    assert_eq!(bits_u32::set_bits(foo, 12, 2, u32::MAX), foo);
}

#[test]
fn test_trait_set_bits() {
    let mut foo = 0b1011_0010_1110_1000u32;
    foo.set_bits(0..4, 0b0101);
    assert_eq!(foo, 0b1011_0010_1110_0101);
    let mut foo = 0b1011_0010_1110_1000u32;
    foo.set_bits(..4, 0b0101);
    let mut foo = 0b1011_0010_1110_1000u32;
    foo.set_bits(0..=3, 0b0101);
    assert_eq!(foo, 0b1011_0010_1110_0101);
    assert_eq!(foo, 0b1011_0010_1110_0101);
    let mut foo = 0b1011_0010_1110_1000u32;
    foo.set_bits(..=3, 0b0101);
    assert_eq!(foo, 0b1011_0010_1110_0101);

    let mut foo = 0b1011_0010_1110_1000u32;
    foo.set_bits(1..7, 0b0_0001);
    assert_eq!(foo, 0b1011_0010_1000_0010);

    let mut foo = 0b1011_0010_1110_1000u32;
    foo.set_bits(4..9, 0b1_1100);
    assert_eq!(foo, 0b1011_0011_1100_1000);

    let mut foo = 0b1011_0010_1110_1000u32;
    foo.set_bits(8..16, 0b1010_0011);
    assert_eq!(foo, 0b1010_0011_1110_1000);

    let mut foo = 0b1011_0010_1110_1000u32;
    foo.set_bits(8..u32::BITS, 0b0100_1111_0000_1011);
    assert_eq!(foo, 0b0100_1111_0000_1011_1110_1000);
    let mut foo = 0b1011_0010_1110_1000u32;
    foo.set_bits(8.., 0b0100_1111_0000_1011);
    assert_eq!(foo, 0b0100_1111_0000_1011_1110_1000);

    let mut foo = 0b1011_0010_1110_1000u32;
    foo.set_bits(.., 0xdead_beef);
    assert_eq!(foo, 0xdead_beef);

    let mut foo = 0b1011_0010_1110_1000u32;
    foo.set_bits(12..2, u32::MAX);
    assert_eq!(foo, foo);
}
