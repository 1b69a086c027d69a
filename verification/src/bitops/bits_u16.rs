//! Bit operations for `u16`.

use vstd::prelude::*;
use vstd::arithmetic::power2::pow2;
use crate::bitops::model::{
    bit_is_set,
    bit_field,
    with_bit_field,
    clamp,
    digit,
    lemma_bit_field_from_digits,
    lemma_with_bit_field_from_digits,
};

verus! {

/// The mask of the low `bit` digits, as the shifts compute it.
spec fn low_mask(bit: u32) -> u16 {
    if bit == 16 {
        !0u16
    } else {
        ((1u16 << bit) - 1) as u16
    }
}

/// Digit `i` of `x`, read with a shift and a mask, is its binary digit.
proof fn lemma_digit(x: u16, i: u32)
    requires
        i < 16,
    ensures
        (((x >> i) & 1u16) == 1u16) == bit_is_set(x as nat, i as nat),
{
    assert((((x >> i) & 1u16) == 1u16) == ((x >> (i as u16)) % 2 == 1)) by (bit_vector)
        requires
            i < 16,
    ;
    vstd::bits::lemma_u16_shr_is_div(x, i as u16);
}

/// Every value of the type is below two to the power of its width.
proof fn lemma_width(x: u16)
    ensures
        (x as nat) < pow2(16),
{
    vstd::arithmetic::power2::lemma2_to64();
}

/// Returns the mask of the low `bit` bits.
fn bit_mask(bit: u32) -> (r: u16)
    requires
        bit <= 16,
    ensures
        r == low_mask(bit),
{
    if bit == u16::BITS {
        !0
    } else {
        assert(1u16 << bit >= 1) by (bit_vector)
            requires
                bit < 16,
        ;
        (1 << bit) - 1
    }
}

/// Returns whether `this`'s `bit`-th bit is set.
pub fn get_bit(this: u16, bit: u32) -> (r: bool)
    ensures
        r == (bit < 16 && bit_is_set(this as nat, bit as nat)),
{
    if bit < u16::BITS {
        proof {
            lemma_digit(this, bit);
        }
        (this >> bit) & 1 == 1
    } else {
        false
    }
}

/// The digits of a field read with a mask and a shift.
proof fn lemma_get_bits_digits(x: u16, s: u32, e: u32, r: u16)
    by (bit_vector)
    requires
        s < e <= 16,
        r == (x & (low_mask(e) ^ low_mask(s))) >> s,
    ensures
        forall|i: u32|
            i < 16 ==> ((((r >> i) & 1u16) == 1u16) == (s + i < e && ((x >> (s + i)) & 1u16)
                == 1u16)),
{
}

/// Returns the `start..end` bits of `this`.
pub fn get_bits(this: u16, start: u32, end: u32) -> (r: u16)
    ensures
        r as nat == bit_field(this as nat, clamp(start as nat, 16), clamp(end as nat, 16)),
{
    let start = if start < u16::BITS {
        start
    } else {
        u16::BITS
    };
    let end = if end < u16::BITS {
        end
    } else {
        u16::BITS
    };

    if end <= start {
        return 0;
    }
    let mask = bit_mask(end) ^ bit_mask(start);
    let r = (this & mask) >> start;
    proof {
        lemma_get_bits_digits(this, start, end, r);
        assert forall|i: nat| i < 16 implies #[trigger] bit_is_set(r as nat, i) == (start + i < end
            && bit_is_set(this as nat, (start + i) as nat)) by {
            lemma_digit(r, i as u32);
            if start + i < end {
                lemma_digit(this, (start + i) as u32);
            }
        }
        lemma_width(r);
        lemma_bit_field_from_digits(r as nat, this as nat, start as nat, end as nat, 16);
    }
    r
}

/// The digits of a number after one bit is cleared and set again.
proof fn lemma_set_bit_digits(x: u16, bit: u32, v: u16, r: u16)
    by (bit_vector)
    requires
        bit < 16,
        v == 0 || v == 1,
        r == x & !(1u16 << bit) | (v << bit),
    ensures
        forall|i: u32|
            i < 16 ==> ((((r >> i) & 1u16) == 1u16) == if i == bit {
                v == 1
            } else {
                ((x >> i) & 1u16) == 1u16
            }),
{
}

/// If `value` is `true`, sets `this`'s `bit`-th bit. Otherwise, unsets.
pub fn set_bit(this: u16, bit: u32, value: bool) -> (r: u16)
    ensures
        r as nat == if bit < 16 {
            with_bit_field(this as nat, bit as nat, bit as nat + 1, digit(value))
        } else {
            this as nat
        },
{
    if bit < u16::BITS {
        let r = this & !(1 << bit) | ((value as u16) << bit);
        proof {
            let v: u16 = if value { 1 } else { 0 };
            assert(v == value as u16);
            lemma_set_bit_digits(this, bit, v, r);
            let vn = digit(value);
            assert forall|i: nat| i < 16 implies #[trigger] bit_is_set(r as nat, i) == if bit <= i
                < bit + 1 {
                bit_is_set(vn, (i - bit) as nat)
            } else {
                bit_is_set(this as nat, i)
            } by {
                lemma_digit(r, i as u32);
                lemma_digit(this, i as u32);
                if i == bit {
                    vstd::arithmetic::power2::lemma2_to64();
                }
            }
            lemma_width(r);
            lemma_width(this);
            lemma_with_bit_field_from_digits(
                r as nat,
                this as nat,
                bit as nat,
                bit as nat + 1,
                vn,
                16,
            );
        }
        r
    } else {
        this
    }
}

/// The digits of a number after a field is cleared and filled in.
proof fn lemma_set_bits_digits(x: u16, s: u32, e: u32, v: u16, r: u16)
    by (bit_vector)
    requires
        s < e <= 16,
        r == x & !(low_mask(e) ^ low_mask(s)) | (v << s & (low_mask(e) ^ low_mask(s))),
    ensures
        forall|i: u32|
            i < 16 ==> ((((r >> i) & 1u16) == 1u16) == if s <= i < e {
                ((v >> ((i - s) as u32)) & 1u16) == 1u16
            } else {
                ((x >> i) & 1u16) == 1u16
            }),
{
}

/// Changes the `start..end` bits of `this` to `value`.
pub fn set_bits(this: u16, start: u32, end: u32, value: u16) -> (r: u16)
    ensures
        r as nat == with_bit_field(
            this as nat,
            clamp(start as nat, 16),
            clamp(end as nat, 16),
            value as nat,
        ),
{
    let start = if start < u16::BITS {
        start
    } else {
        u16::BITS
    };
    let end = if end < u16::BITS {
        end
    } else {
        u16::BITS
    };

    if end <= start {
        return this;
    }
    let mask = bit_mask(end) ^ bit_mask(start);
    let r = this & !mask | (value << start & mask);
    proof {
        lemma_set_bits_digits(this, start, end, value, r);
        assert forall|i: nat| i < 16 implies #[trigger] bit_is_set(r as nat, i) == if start <= i
            < end {
            bit_is_set(value as nat, (i - start) as nat)
        } else {
            bit_is_set(this as nat, i)
        } by {
            lemma_digit(r, i as u32);
            lemma_digit(this, i as u32);
            if start <= i < end {
                lemma_digit(value, (i - start) as u32);
            }
        }
        lemma_width(r);
        lemma_width(this);
        lemma_with_bit_field_from_digits(
            r as nat,
            this as nat,
            start as nat,
            end as nat,
            value as nat,
            16,
        );
    }
    r
}

} // verus!
