//! Bit operations for `usize`.

use vstd::prelude::*;
use vstd::arithmetic::power2::pow2;
use crate::bitops::model::{
    bit_is_set,
    bit_field,
    with_bit_field,
    clamp,
    digit,
    lemma_bit_field_from_digits,
    lemma_with_bit_field_from_digits,
};

verus! {

/// The mask of the low `bit` digits, as the shifts compute it.
spec fn low_mask(bit: u32) -> usize {
    if bit == usize::BITS {
        !0usize
    } else {
        ((1usize << bit) - 1) as usize
    }
}

/// Digit `i` of `x`, read with a shift and a mask, is its binary digit.
proof fn lemma_digit(x: usize, i: u32)
    requires
        i < usize::BITS,
    ensures
        (((x >> i) & 1usize) == 1usize) == bit_is_set(x as nat, i as nat),
{
    assert((((x >> i) & 1usize) == 1usize) == ((x >> (i as usize)) % 2 == 1)) by (bit_vector)
        requires
            i < usize::BITS,
    ;
    vstd::bits::lemma_usize_shr_is_div(x, i as usize);
}

/// Every value of the type is below two to the power of its width.
proof fn lemma_width(x: usize)
    ensures
        (x as nat) < pow2(usize::BITS as nat),
{
    vstd::arithmetic::power2::lemma2_to64();
}

/// Returns the mask of the low `bit` bits.
fn bit_mask(bit: u32) -> (r: usize)
    requires
        bit <= usize::BITS,
    ensures
        r == low_mask(bit),
{
    if bit == usize::BITS {
        !0
    } else {
        assert(1usize << bit >= 1) by (bit_vector)
            requires
                bit < usize::BITS,
        ;
        (1 << bit) - 1
    }
}

/// Returns whether `this`'s `bit`-th bit is set.
pub fn get_bit(this: usize, bit: u32) -> (r: bool)
    ensures
        r == (bit < usize::BITS && bit_is_set(this as nat, bit as nat)),
{
    if bit < usize::BITS {
        proof {
            lemma_digit(this, bit);
        }
        (this >> bit) & 1 == 1
    } else {
        false
    }
}

/// The digits of a field read with a mask and a shift.
proof fn lemma_get_bits_digits(x: usize, s: u32, e: u32, r: usize)
    by (bit_vector)
    requires
        s < e <= usize::BITS,
        r == (x & (low_mask(e) ^ low_mask(s))) >> s,
    ensures
        forall|i: u32|
            i < usize::BITS ==> ((((r >> i) & 1usize) == 1usize) == (s + i < e && ((x >> (s + i)) & 1usize)
                == 1usize)),
{
}

/// Returns the `start..end` bits of `this`.
pub fn get_bits(this: usize, start: u32, end: u32) -> (r: usize)
    ensures
        r as nat == bit_field(this as nat, clamp(start as nat, usize::BITS as nat), clamp(end as nat, usize::BITS as nat)),
{
    let start = if start < usize::BITS {
        start
    } else {
        usize::BITS
    };
    let end = if end < usize::BITS {
        end
    } else {
        usize::BITS
    };

    if end <= start {
        return 0;
    }
    let mask = bit_mask(end) ^ bit_mask(start);
    let r = (this & mask) >> start;
    proof {
        lemma_get_bits_digits(this, start, end, r);
        assert forall|i: nat| i < usize::BITS implies #[trigger] bit_is_set(r as nat, i) == (start + i < end
            && bit_is_set(this as nat, (start + i) as nat)) by {
            lemma_digit(r, i as u32);
            if start + i < end {
                lemma_digit(this, (start + i) as u32);
            }
        }
        lemma_width(r);
        lemma_bit_field_from_digits(r as nat, this as nat, start as nat, end as nat, usize::BITS as nat);
    }
    r
}

/// The digits of a number after one bit is cleared and set again.
proof fn lemma_set_bit_digits(x: usize, bit: u32, v: usize, r: usize)
    by (bit_vector)
    requires
        bit < usize::BITS,
        v == 0 || v == 1,
        r == x & !(1usize << bit) | (v << bit),
    ensures
        forall|i: u32|
            i < usize::BITS ==> ((((r >> i) & 1usize) == 1usize) == if i == bit {
                v == 1
            } else {
                ((x >> i) & 1usize) == 1usize
            }),
{
}

/// If `value` is `true`, sets `this`'s `bit`-th bit. Otherwise, unsets.
pub fn set_bit(this: usize, bit: u32, value: bool) -> (r: usize)
    ensures
        r as nat == if bit < usize::BITS {
            with_bit_field(this as nat, bit as nat, bit as nat + 1, digit(value))
        } else {
            this as nat
        },
{
    if bit < usize::BITS {
        let r = this & !(1 << bit) | ((value as usize) << bit);
        proof {
            let v: usize = if value { 1 } else { 0 };
            assert(v == value as usize);
            lemma_set_bit_digits(this, bit, v, r);
            let vn = digit(value);
            assert forall|i: nat| i < usize::BITS implies #[trigger] bit_is_set(r as nat, i) == if bit <= i
                < bit + 1 {
                bit_is_set(vn, (i - bit) as nat)
            } else {
                bit_is_set(this as nat, i)
            } by {
                lemma_digit(r, i as u32);
                lemma_digit(this, i as u32);
                if i == bit {
                    vstd::arithmetic::power2::lemma2_to64();
                }
            }
            lemma_width(r);
            lemma_width(this);
            lemma_with_bit_field_from_digits(
                r as nat,
                this as nat,
                bit as nat,
                bit as nat + 1,
                vn,
                usize::BITS as nat,
            );
        }
        r
    } else {
        this
    }
}

/// The digits of a number after a field is cleared and filled in.
proof fn lemma_set_bits_digits(x: usize, s: u32, e: u32, v: usize, r: usize)
    by (bit_vector)
    requires
        s < e <= usize::BITS,
        r == x & !(low_mask(e) ^ low_mask(s)) | (v << s & (low_mask(e) ^ low_mask(s))),
    ensures
        forall|i: u32|
            i < usize::BITS ==> ((((r >> i) & 1usize) == 1usize) == if s <= i < e {
                ((v >> ((i - s) as u32)) & 1usize) == 1usize
            } else {
                ((x >> i) & 1usize) == 1usize
            }),
{
}

/// Changes the `start..end` bits of `this` to `value`.
pub fn set_bits(this: usize, start: u32, end: u32, value: usize) -> (r: usize)
    ensures
        r as nat == with_bit_field(
            this as nat,
            clamp(start as nat, usize::BITS as nat),
            clamp(end as nat, usize::BITS as nat),
            value as nat,
        ),
{
    let start = if start < usize::BITS {
        start
    } else {
        usize::BITS
    };
    let end = if end < usize::BITS {
        end
    } else {
        usize::BITS
    };

    if end <= start {
        return this;
    }
    let mask = bit_mask(end) ^ bit_mask(start);
    let r = this & !mask | (value << start & mask);
    proof {
        lemma_set_bits_digits(this, start, end, value, r);
        assert forall|i: nat| i < usize::BITS implies #[trigger] bit_is_set(r as nat, i) == if start <= i
            < end {
            bit_is_set(value as nat, (i - start) as nat)
        } else {
            bit_is_set(this as nat, i)
        } by {
            lemma_digit(r, i as u32);
            lemma_digit(this, i as u32);
            if start <= i < end {
                lemma_digit(value, (i - start) as u32);
            }
        }
        lemma_width(r);
        lemma_width(this);
        lemma_with_bit_field_from_digits(
            r as nat,
            this as nat,
            start as nat,
            end as nat,
            value as nat,
            usize::BITS as nat,
        );
    }
    r
}

} // verus!
