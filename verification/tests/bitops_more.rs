//! Bit operations on every width, ranges of positions, and the laws on
//! concrete values.

use std::ops::Bound;

use miker::bitops::range::{parse_bounds, BitRange};
use miker::bitops::{bits_u128, bits_u16, bits_u64, bits_u8, bits_usize, BitOps};

#[test]
fn get_bit_on_every_width() {
    assert!(bits_u8::get_bit(0b1000_0001, 0));
    assert!(bits_u8::get_bit(0b1000_0001, 7));
    assert!(!bits_u8::get_bit(0b1000_0001, 6));
    assert!(!bits_u8::get_bit(0xff, 8));
    assert!(bits_u16::get_bit(0x8000, 15));
    assert!(!bits_u16::get_bit(0xffff, 16));
    assert!(bits_u64::get_bit(1 << 63, 63));
    assert!(!bits_u64::get_bit(u64::MAX, 64));
    assert!(bits_u128::get_bit(1 << 127, 127));
    assert!(!bits_u128::get_bit(u128::MAX, 128));
    assert!(bits_usize::get_bit(1 << (usize::BITS - 1), usize::BITS - 1));
    assert!(!bits_usize::get_bit(usize::MAX, usize::BITS));
    assert!(!bits_u8::get_bit(0xff, u32::MAX));
}

#[test]
fn get_bits_on_every_width() {
    assert_eq!(bits_u8::get_bits(0b1011_0110, 2, 6), 0b1101);
    assert_eq!(bits_u8::get_bits(0b1011_0110, 4, 100), 0b1011);
    assert_eq!(bits_u8::get_bits(0b1011_0110, 0, 8), 0b1011_0110);
    assert_eq!(bits_u16::get_bits(0xabcd, 4, 12), 0xbc);
    assert_eq!(bits_u64::get_bits(0x1234_5678_9abc_def0, 32, 64), 0x1234_5678);
    assert_eq!(bits_u64::get_bits(0x1234_5678_9abc_def0, 60, 200), 0x1);
    assert_eq!(bits_u128::get_bits(0xdead << 100, 100, 116), 0xdead);
    assert_eq!(bits_u128::get_bits(u128::MAX, 0, 128), u128::MAX);
    assert_eq!(bits_usize::get_bits(0xf0, 4, 8), 0xf);
    assert_eq!(bits_u16::get_bits(0xffff, 9, 9), 0);
    assert_eq!(bits_u16::get_bits(0xffff, 20, 30), 0);
}

#[test]
fn set_bit_on_every_width() {
    assert_eq!(bits_u8::set_bit(0, 7, true), 0x80);
    assert_eq!(bits_u8::set_bit(0xff, 0, false), 0xfe);
    assert_eq!(bits_u8::set_bit(0x12, 8, true), 0x12);
    assert_eq!(bits_u16::set_bit(0, 15, true), 0x8000);
    assert_eq!(bits_u64::set_bit(u64::MAX, 63, false), u64::MAX >> 1);
    assert_eq!(bits_u128::set_bit(0, 127, true), 1 << 127);
    assert_eq!(bits_u128::set_bit(5, 200, true), 5);
    assert_eq!(bits_usize::set_bit(0, 3, true), 8);
}

#[test]
fn set_bits_on_every_width() {
    assert_eq!(bits_u8::set_bits(0xff, 2, 6, 0), 0b1100_0011);
    assert_eq!(bits_u8::set_bits(0, 4, 8, 0xff), 0xf0);
    assert_eq!(bits_u16::set_bits(0x1234, 8, 16, 0xab), 0xab34);
    assert_eq!(bits_u64::set_bits(0, 12, 52, u64::MAX), 0x000f_ffff_ffff_f000);
    assert_eq!(bits_u128::set_bits(0, 64, 128, 1), 1 << 64);
    assert_eq!(bits_usize::set_bits(0xffff, 4, 12, 0), 0xf00f);
    assert_eq!(bits_u8::set_bits(0x5a, 6, 3, 0xff), 0x5a);
    assert_eq!(bits_u16::set_bits(0x5a5a, 16, 40, 0xffff), 0x5a5a);
}

#[test]
fn methods_on_other_widths() {
    let mut x = 0u8;
    x.set_bits(2..5, 0b111);
    assert_eq!(x, 0b1_1100);
    assert_eq!(x.get_bits(2..=4), 0b111);
    x.set_bit(7, true);
    assert!(x.get_bit(7));
    let mut y = 0u64;
    y.set_bits(12.., u64::MAX);
    assert_eq!(y, u64::MAX << 12);
    assert_eq!(y.get_bits(..12), 0);
    let mut z = 0u128;
    z.set_bits(..=127, u128::MAX);
    assert_eq!(z, u128::MAX);
    let w = 0xabcdusize;
    assert_eq!(w.get_bits(8..16), 0xab);
    let v = 0x8001u16;
    assert!(v.get_bit(15));
    assert!(!v.get_bit(16));
}

#[test]
fn ranges_report_their_ends() {
    assert_eq!((3u32..9).bounds(), (Bound::Included(3), Bound::Excluded(9)));
    assert_eq!((3u32..=9).bounds(), (Bound::Included(3), Bound::Included(9)));
    assert_eq!((3u32..).bounds(), (Bound::Included(3), Bound::Unbounded));
    assert_eq!((..9u32).bounds(), (Bound::Unbounded, Bound::Excluded(9)));
    assert_eq!((..=9u32).bounds(), (Bound::Unbounded, Bound::Included(9)));
    assert_eq!((..).bounds(), (Bound::Unbounded, Bound::Unbounded));
    assert_eq!(
        (Bound::Excluded(2u32), Bound::Included(5u32)).bounds(),
        (Bound::Excluded(2), Bound::Included(5))
    );
    let (two, five) = (2u32, 5u32);
    assert_eq!(
        (Bound::Excluded(&two), Bound::Excluded(&five)).bounds(),
        (Bound::Excluded(2), Bound::Excluded(5))
    );
}

#[test]
fn backwards_inclusive_range_keeps_its_ends() {
    let backwards = 12u32..=2;
    assert_eq!(backwards.bounds(), (Bound::Included(12), Bound::Included(2)));
    assert_eq!(parse_bounds(12u32..=2, 32), (12, 3));
    assert_eq!(0xffffu32.get_bits(12u32..=2), 0);
    let mut x = 0xffffu32;
    x.set_bits(12u32..=2, 0);
    assert_eq!(x, 0xffff);
}

#[test]
fn finished_inclusive_range_selects_nothing() {
    let mut finished = 4u32..=4;
    assert_eq!(finished.next(), Some(4));
    assert_eq!(finished.next(), None);
    let (start, end) = parse_bounds(finished.clone(), 32);
    assert!(end <= start);
    assert_eq!(0xffu32.get_bits(finished), 0);
}

#[test]
fn pairs_of_bounds() {
    assert_eq!(parse_bounds((Bound::Excluded(2u32), Bound::Included(5u32)), 8), (3, 6));
    assert_eq!(parse_bounds((Bound::Unbounded, Bound::Excluded(40u32)), 32), (0, 32));
    let (two, five) = (2u32, 5u32);
    assert_eq!(parse_bounds((Bound::Included(&two), Bound::Included(&five)), 8), (2, 6));
    let foo = 0b1011_0010_1110_1000u32;
    assert_eq!(foo.get_bits((Bound::Excluded(2u32), Bound::Included(5u32))), 0b101);
    let mut bar = 0u8;
    bar.set_bits((Bound::Excluded(0u32), Bound::Unbounded), 0xff);
    assert_eq!(bar, 0xfe);
}

#[test]
fn parse_bounds_cuts_at_width() {
    assert_eq!(parse_bounds(0u32..4, 32), (0, 4));
    assert_eq!(parse_bounds(0u32..=3, 32), (0, 4));
    assert_eq!(parse_bounds(..4u32, 32), (0, 4));
    assert_eq!(parse_bounds(8u32.., 32), (8, 32));
    assert_eq!(parse_bounds(.., 16), (0, 16));
    assert_eq!(parse_bounds(20u32..40, 16), (16, 16));
    assert_eq!(parse_bounds(12u32..2, 32), (12, 2));
    assert_eq!(parse_bounds(40u32..=50, 32), (32, 32));
}

#[test]
fn read_after_write() {
    let x = bits_u32_write(0x1234_5678, 8, 20, 0xabcde);
    assert_eq!(miker::bitops::bits_u32::get_bits(x, 8, 20), 0xcde);
}

fn bits_u32_write(x: u32, s: u32, e: u32, v: u32) -> u32 {
    miker::bitops::bits_u32::set_bits(x, s, e, v)
}

#[test]
fn write_back_what_was_read() {
    let x = 0x9abc_def0u32;
    let field = miker::bitops::bits_u32::get_bits(x, 5, 17);
    assert_eq!(miker::bitops::bits_u32::set_bits(x, 5, 17, field), x);
}

#[test]
fn last_write_wins() {
    let x = 0x0f0f_0f0fu32;
    let once = bits_u32_write(x, 4, 12, 0x11);
    let twice = bits_u32_write(once, 4, 12, 0x22);
    assert_eq!(twice, bits_u32_write(x, 4, 12, 0x22));
}

#[test]
fn writes_keep_other_bits() {
    let x = 0xffff_ffffu32;
    let y = bits_u32_write(x, 8, 16, 0);
    assert_eq!(y, 0xffff_00ff);
    assert_eq!(miker::bitops::bits_u32::get_bits(y, 0, 8), 0xff);
    assert_eq!(miker::bitops::bits_u32::get_bits(y, 16, 32), 0xffff);
}

#[test]
fn read_bit_after_write() {
    for bit in 0..32 {
        assert!(miker::bitops::bits_u32::get_bit(miker::bitops::bits_u32::set_bit(0, bit, true), bit));
        assert!(!miker::bitops::bits_u32::get_bit(miker::bitops::bits_u32::set_bit(u32::MAX, bit, false), bit));
    }
}

#[test]
fn bit_is_its_one_bit_field() {
    let x = 0b1010_0110u8;
    for bit in 0..8 {
        assert_eq!(bits_u8::get_bit(x, bit), bits_u8::get_bits(x, bit, bit + 1) == 1);
    }
}

#[test]
fn whole_width_field() {
    assert_eq!(bits_u16::get_bits(0xbeef, 0, 16), 0xbeef);
    assert_eq!(bits_u16::set_bits(0x1234, 0, 16, 0xbeef), 0xbeef);
}

#[test]
fn write_back_a_bit() {
    let x = 0b0110_1001u8;
    for bit in 0..8 {
        assert_eq!(bits_u8::set_bit(x, bit, bits_u8::get_bit(x, bit)), x);
    }
}

#[test]
fn ranges_over_references() {
    let (two, five) = (2u32, 5u32);
    assert_eq!((&two..&five).bounds(), (Bound::Included(2), Bound::Excluded(5)));
    assert_eq!((&two..=&five).bounds(), (Bound::Included(2), Bound::Included(5)));
    assert_eq!((&two..).bounds(), (Bound::Included(2), Bound::Unbounded));
    assert_eq!((..&five).bounds(), (Bound::Unbounded, Bound::Excluded(5)));
    assert_eq!((..=&five).bounds(), (Bound::Unbounded, Bound::Included(5)));
    assert_eq!((&five..=&two).bounds(), (Bound::Included(5), Bound::Included(2)));
    let foo = 0b1011_0010_1110_1000u32;
    assert_eq!(foo.get_bits(&two..=&five), 0b1010);
}
