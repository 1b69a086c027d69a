//! Bit operations for the unsigned integer types.
//!
//! Each of `bits_u8`, `bits_u16`, `bits_u32`, `bits_u64`, `bits_u128` and
//! `bits_usize` reads and writes single bits and ranges of bits of its type,
//! and `BitOps` offers the same operations as methods.

use vstd::prelude::*;

pub mod model;
pub mod range;
pub mod laws;
pub mod prelude;
pub mod bits_u8;
pub mod bits_u16;
pub mod bits_u32;
pub mod bits_u64;
pub mod bits_u128;
pub mod bits_usize;

use crate::bitops::model::{bit_is_set, bit_field, with_bit_field, clamp, digit};
use core::ops::Bound;
use crate::bitops::range::{BitRange, bounds_fit, start_position, end_position, parse_bounds};

verus! {

/// The first position of the range of bits that `bits` selects in a number
/// of `width` bits.
pub open spec fn span_start<R: BitRange>(bits: R, width: nat) -> nat {
    clamp(start_position(bits.start_of()), width)
}

/// The position just past the range of bits that `bits` selects in a
/// number of `width` bits.
pub open spec fn span_end<R: BitRange>(bits: R, width: nat) -> nat {
    clamp(end_position(bits.end_of(), width), width)
}

/// The bits that a pair of bounds selects in a number of `width` bits are,
/// as plain numbers: from `s` to just before `e` for an included start `s`
/// and an excluded end `e`, through `e` for an included end, and up to the
/// width for an open end, with references taken off alike; every position
/// is cut at the width.
pub proof fn law_pair_span(s: u32, e: u32, width: nat)
    ensures
        span_start((Bound::Included(s), Bound::<u32>::Excluded(e)), width) == clamp(s as nat, width),
        span_end((Bound::<u32>::Included(s), Bound::Excluded(e)), width) == clamp(e as nat, width),
        span_end((Bound::<u32>::Included(s), Bound::Included(e)), width) == clamp(e as nat + 1, width),
        span_start((Bound::Excluded(s), Bound::<u32>::Unbounded), width) == clamp(s as nat + 1, width),
        span_end((Bound::<u32>::Included(s), Bound::Unbounded), width) == width,
        span_start((Bound::Included(&s), Bound::<&u32>::Unbounded), width) == clamp(s as nat, width),
        span_end((Bound::Included(&s), Bound::<&u32>::Unbounded), width) == width,
        span_end((Bound::Included(&s), Bound::Excluded(&e)), width) == clamp(e as nat, width),
        s < e <= width ==> span_start((Bound::Included(s), Bound::<u32>::Excluded(e)), width) == s
            && span_end((Bound::<u32>::Included(s), Bound::Excluded(e)), width) == e,
{
}

/// Provides bit operations.
pub trait BitOps: Sized {
    /// The number of bits of the type.
    spec fn bit_width() -> nat;

    /// The number that `self` holds.
    spec fn value(&self) -> nat;

    /// Returns whether `self`'s `bit`-th bit is set.
    fn get_bit(&self, bit: u32) -> (r: bool)
        ensures
            r == (bit < Self::bit_width() && bit_is_set(self.value(), bit as nat)),
    ;

    /// Returns `self`'s `bits` range bit value.
    fn get_bits<R: BitRange>(&self, bits: R) -> (r: Self)
        requires
            bits.bounds_known() ==> bounds_fit(bits.start_of(), bits.end_of()),
        ensures
            r.value() == if bits.bounds_known() {
                bit_field(
                    self.value(),
                    span_start(bits, Self::bit_width()),
                    span_end(bits, Self::bit_width()),
                )
            } else {
                0
            },
    ;

    /// If `value` is `true`, sets `self`'s `bit`-th bit. Otherwise, unsets.
    fn set_bit(&mut self, bit: u32, value: bool)
        ensures
            final(self).value() == if bit < Self::bit_width() {
                with_bit_field(old(self).value(), bit as nat, bit as nat + 1, digit(value))
            } else {
                old(self).value()
            },
    ;

    /// Changes `self`'s `bits` range bit to `value`.
    fn set_bits<R: BitRange>(&mut self, bits: R, value: Self)
        requires
            bits.bounds_known() ==> bounds_fit(bits.start_of(), bits.end_of()),
        ensures
            final(self).value() == if bits.bounds_known() {
                with_bit_field(
                    old(self).value(),
                    span_start(bits, Self::bit_width()),
                    span_end(bits, Self::bit_width()),
                    value.value(),
                )
            } else {
                old(self).value()
            },
    ;
}

impl BitOps for u8 {
    open spec fn bit_width() -> nat {
        8
    }

    open spec fn value(&self) -> nat {
        *self as nat
    }

    fn get_bit(&self, bit: u32) -> (r: bool) {
        bits_u8::get_bit(*self, bit)
    }

    fn get_bits<R: BitRange>(&self, bits: R) -> (r: Self) {
        let (start, end) = parse_bounds(bits, u8::BITS);
        bits_u8::get_bits(*self, start, end)
    }

    fn set_bit(&mut self, bit: u32, value: bool) {
        *self = bits_u8::set_bit(*self, bit, value);
    }

    fn set_bits<R: BitRange>(&mut self, bits: R, value: Self) {
        let (start, end) = parse_bounds(bits, u8::BITS);
        *self = bits_u8::set_bits(*self, start, end, value);
    }
}

impl BitOps for u16 {
    open spec fn bit_width() -> nat {
        16
    }

    open spec fn value(&self) -> nat {
        *self as nat
    }

    fn get_bit(&self, bit: u32) -> (r: bool) {
        bits_u16::get_bit(*self, bit)
    }

    fn get_bits<R: BitRange>(&self, bits: R) -> (r: Self) {
        let (start, end) = parse_bounds(bits, u16::BITS);
        bits_u16::get_bits(*self, start, end)
    }

    fn set_bit(&mut self, bit: u32, value: bool) {
        *self = bits_u16::set_bit(*self, bit, value);
    }

    fn set_bits<R: BitRange>(&mut self, bits: R, value: Self) {
        let (start, end) = parse_bounds(bits, u16::BITS);
        *self = bits_u16::set_bits(*self, start, end, value);
    }
}

impl BitOps for u32 {
    open spec fn bit_width() -> nat {
        32
    }

    open spec fn value(&self) -> nat {
        *self as nat
    }

    fn get_bit(&self, bit: u32) -> (r: bool) {
        bits_u32::get_bit(*self, bit)
    }

    fn get_bits<R: BitRange>(&self, bits: R) -> (r: Self) {
        let (start, end) = parse_bounds(bits, u32::BITS);
        bits_u32::get_bits(*self, start, end)
    }

    fn set_bit(&mut self, bit: u32, value: bool) {
        *self = bits_u32::set_bit(*self, bit, value);
    }

    fn set_bits<R: BitRange>(&mut self, bits: R, value: Self) {
        let (start, end) = parse_bounds(bits, u32::BITS);
        *self = bits_u32::set_bits(*self, start, end, value);
    }
}

impl BitOps for u64 {
    open spec fn bit_width() -> nat {
        64
    }

    open spec fn value(&self) -> nat {
        *self as nat
    }

    fn get_bit(&self, bit: u32) -> (r: bool) {
        bits_u64::get_bit(*self, bit)
    }

    fn get_bits<R: BitRange>(&self, bits: R) -> (r: Self) {
        let (start, end) = parse_bounds(bits, u64::BITS);
        bits_u64::get_bits(*self, start, end)
    }

    fn set_bit(&mut self, bit: u32, value: bool) {
        *self = bits_u64::set_bit(*self, bit, value);
    }

    fn set_bits<R: BitRange>(&mut self, bits: R, value: Self) {
        let (start, end) = parse_bounds(bits, u64::BITS);
        *self = bits_u64::set_bits(*self, start, end, value);
    }
}

impl BitOps for u128 {
    open spec fn bit_width() -> nat {
        128
    }

    open spec fn value(&self) -> nat {
        *self as nat
    }

    fn get_bit(&self, bit: u32) -> (r: bool) {
        bits_u128::get_bit(*self, bit)
    }

    fn get_bits<R: BitRange>(&self, bits: R) -> (r: Self) {
        let (start, end) = parse_bounds(bits, u128::BITS);
        bits_u128::get_bits(*self, start, end)
    }

    fn set_bit(&mut self, bit: u32, value: bool) {
        *self = bits_u128::set_bit(*self, bit, value);
    }

    fn set_bits<R: BitRange>(&mut self, bits: R, value: Self) {
        let (start, end) = parse_bounds(bits, u128::BITS);
        *self = bits_u128::set_bits(*self, start, end, value);
    }
}

impl BitOps for usize {
    open spec fn bit_width() -> nat {
        usize::BITS as nat
    }

    open spec fn value(&self) -> nat {
        *self as nat
    }

    fn get_bit(&self, bit: u32) -> (r: bool) {
        bits_usize::get_bit(*self, bit)
    }

    fn get_bits<R: BitRange>(&self, bits: R) -> (r: Self) {
        let (start, end) = parse_bounds(bits, usize::BITS);
        bits_usize::get_bits(*self, start, end)
    }

    fn set_bit(&mut self, bit: u32, value: bool) {
        *self = bits_usize::set_bit(*self, bit, value);
    }

    fn set_bits<R: BitRange>(&mut self, bits: R, value: Self) {
        let (start, end) = parse_bounds(bits, usize::BITS);
        *self = bits_usize::set_bits(*self, start, end, value);
    }
}

} // verus!
