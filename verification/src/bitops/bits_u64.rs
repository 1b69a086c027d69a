//! Bit operations for `u64`.

use vstd::prelude::*;
use vstd::arithmetic::power2::pow2;
use crate::bitops::model::{
    bit_is_set,
    bit_field,
    with_bit_field,
    clamp,
    digit,
    lemma_bit_field_from_digits,
    lemma_with_bit_field_from_digits,
};

verus! {

/// The mask of the low `bit` digits, as the shifts compute it.
spec fn low_mask(bit: u32) -> u64 {
    if bit == 64 {
        !0u64
    } else {
        ((1u64 << bit) - 1) as u64
    }
}

/// Digit `i` of `x`, read with a shift and a mask, is its binary digit.
proof fn lemma_digit(x: u64, i: u32)
    requires
        i < 64,
    ensures
        (((x >> i) & 1u64) == 1u64) == bit_is_set(x as nat, i as nat),
{
    assert((((x >> i) & 1u64) == 1u64) == ((x >> (i as u64)) % 2 == 1)) by (bit_vector)
        requires
            i < 64,
    ;
    vstd::bits::lemma_u64_shr_is_div(x, i as u64);
}

/// Every value of the type is below two to the power of its width.
proof fn lemma_width(x: u64)
    ensures
        (x as nat) < pow2(64),
{
    vstd::arithmetic::power2::lemma2_to64();
}

/// Returns the mask of the low `bit` bits.
fn bit_mask(bit: u32) -> (r: u64)
    requires
        bit <= 64,
    ensures
        r == low_mask(bit),
{
    if bit == u64::BITS {
        !0
    } else {
        assert(1u64 << bit >= 1) by (bit_vector)
            requires
                bit < 64,
        ;
        (1 << bit) - 1
    }
}

/// Returns whether `this`'s `bit`-th bit is set.
pub fn get_bit(this: u64, bit: u32) -> (r: bool)
    ensures
        r == (bit < 64 && bit_is_set(this as nat, bit as nat)),
{
    if bit < u64::BITS {
        proof {
            lemma_digit(this, bit);
        }
        (this >> bit) & 1 == 1
    } else {
        false
    }
}

/// The digits of a field read with a mask and a shift.
proof fn lemma_get_bits_digits(x: u64, s: u32, e: u32, r: u64)
    by (bit_vector)
    requires
        s < e <= 64,
        r == (x & (low_mask(e) ^ low_mask(s))) >> s,
    ensures
        forall|i: u32|
            i < 64 ==> ((((r >> i) & 1u64) == 1u64) == (s + i < e && ((x >> (s + i)) & 1u64)
                == 1u64)),
{
}

/// Returns the `start..end` bits of `this`.
pub fn get_bits(this: u64, start: u32, end: u32) -> (r: u64)
    ensures
        r as nat == bit_field(this as nat, clamp(start as nat, 64), clamp(end as nat, 64)),
{
    let start = if start < u64::BITS {
        start
    } else {
        u64::BITS
    };
    let end = if end < u64::BITS {
        end
    } else {
        u64::BITS
    };

    if end <= start {
        return 0;
    }
    let mask = bit_mask(end) ^ bit_mask(start);
    let r = (this & mask) >> start;
    proof {
        lemma_get_bits_digits(this, start, end, r);
        assert forall|i: nat| i < 64 implies #[trigger] bit_is_set(r as nat, i) == (start + i < end
            && bit_is_set(this as nat, (start + i) as nat)) by {
            lemma_digit(r, i as u32);
            if start + i < end {
                lemma_digit(this, (start + i) as u32);
            }
        }
        lemma_width(r);
        lemma_bit_field_from_digits(r as nat, this as nat, start as nat, end as nat, 64);
    }
    r
}

/// The digits of a number after one bit is cleared and set again.
proof fn lemma_set_bit_digits(x: u64, bit: u32, v: u64, r: u64)
    by (bit_vector)
    requires
        bit < 64,
        v == 0 || v == 1,
        r == x & !(1u64 << bit) | (v << bit),
    ensures
        forall|i: u32|
            i < 64 ==> ((((r >> i) & 1u64) == 1u64) == if i == bit {
                v == 1
            } else {
                ((x >> i) & 1u64) == 1u64
            }),
{
}

/// If `value` is `true`, sets `this`'s `bit`-th bit. Otherwise, unsets.
pub fn set_bit(this: u64, bit: u32, value: bool) -> (r: u64)
    ensures
        r as nat == if bit < 64 {
            with_bit_field(this as nat, bit as nat, bit as nat + 1, digit(value))
        } else {
            this as nat
        },
{
    if bit < u64::BITS {
        let r = this & !(1 << bit) | ((value as u64) << bit);
        proof {
            let v: u64 = if value { 1 } else { 0 };
            assert(v == value as u64);
            lemma_set_bit_digits(this, bit, v, r);
            let vn = digit(value);
            assert forall|i: nat| i < 64 implies #[trigger] bit_is_set(r as nat, i) == if bit <= i
                < bit + 1 {
                bit_is_set(vn, (i - bit) as nat)
            } else {
                bit_is_set(this as nat, i)
            } by {
                lemma_digit(r, i as u32);
                lemma_digit(this, i as u32);
                if i == bit {
                    vstd::arithmetic::power2::lemma2_to64();
                }
            }
            lemma_width(r);
            lemma_width(this);
            lemma_with_bit_field_from_digits(
                r as nat,
                this as nat,
                bit as nat,
                bit as nat + 1,
                vn,
                64,
            );
        }
        r
    } else {
        this
    }
}

/// The digits of a number after a field is cleared and filled in.
proof fn lemma_set_bits_digits(x: u64, s: u32, e: u32, v: u64, r: u64)
    by (bit_vector)
    requires
        s < e <= 64,
        r == x & !(low_mask(e) ^ low_mask(s)) | (v << s & (low_mask(e) ^ low_mask(s))),
    ensures
        forall|i: u32|
            i < 64 ==> ((((r >> i) & 1u64) == 1u64) == if s <= i < e {
                ((v >> ((i - s) as u32)) & 1u64) == 1u64
            } else {
                ((x >> i) & 1u64) == 1u64
            }),
{
}

/// Changes the `start..end` bits of `this` to `value`.
pub fn set_bits(this: u64, start: u32, end: u32, value: u64) -> (r: u64)
    ensures
        r as nat == with_bit_field(
            this as nat,
            clamp(start as nat, 64),
            clamp(end as nat, 64),
            value as nat,
        ),
{
    let start = if start < u64::BITS {
        start
    } else {
        u64::BITS
    };
    let end = if end < u64::BITS {
        end
    } else {
        u64::BITS
    };

    if end <= start {
        return this;
    }
    let mask = bit_mask(end) ^ bit_mask(start);
    let r = this & !mask | (value << start & mask);
    proof {
        lemma_set_bits_digits(this, start, end, value, r);
        assert forall|i: nat| i < 64 implies #[trigger] bit_is_set(r as nat, i) == if start <= i
            < end {
            bit_is_set(value as nat, (i - start) as nat)
        } else {
            bit_is_set(this as nat, i)
        } by {
            lemma_digit(r, i as u32);
            lemma_digit(this, i as u32);
            if start <= i < end {
                lemma_digit(value, (i - start) as u32);
            }
        }
        lemma_width(r);
        lemma_width(this);
        lemma_with_bit_field_from_digits(
            r as nat,
            this as nat,
            start as nat,
            end as nat,
            value as nat,
            64,
        );
    }
    r
}

} // verus!
