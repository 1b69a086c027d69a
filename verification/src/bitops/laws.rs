//! What holds of the bit operations across calls: reading back what was
//! written, writing back what was read, and the last write winning.

use vstd::prelude::*;
use vstd::arithmetic::power2::{pow2, lemma_pow2_pos, lemma_pow2_adds, lemma_pow2_strictly_increases};
use crate::bitops::model::{
    bit_is_set,
    bit_field,
    with_bit_field,
    lemma_bit_of_low,
    lemma_bit_of_bit_field,
    lemma_bit_of_with_bit_field,
    lemma_bit_field_bound,
    lemma_with_bit_field_bound,
    lemma_bits_determine,
    digit,
    clamp,
};

verus! {

/// Every number is below two to its own power.
proof fn lemma_below_own_power(x: nat)
    ensures
        x < pow2(x),
    decreases x,
{
    vstd::arithmetic::power2::lemma2_to64();
    if x > 0 {
        lemma_below_own_power((x - 1) as nat);
        lemma_pow2_adds((x - 1) as nat, 1);
        lemma_pow2_pos((x - 1) as nat);
    }
}

/// Two numbers whose digits agree everywhere are equal.
proof fn lemma_equal_by_digits(a: nat, b: nat)
    requires
        forall|i: nat| #[trigger] bit_is_set(a, i) == bit_is_set(b, i),
    ensures
        a == b,
{
    let w = a + b;
    lemma_below_own_power(a);
    lemma_below_own_power(b);
    if a < w {
        lemma_pow2_strictly_increases(a, w);
    }
    if b < w {
        lemma_pow2_strictly_increases(b, w);
    }
    lemma_bits_determine(a, b, w);
}

/// Reading a field back after writing it gives the low `e - s` digits of
/// the value written, and nothing for an empty field.
pub proof fn law_read_after_write(x: nat, s: nat, e: nat, v: nat)
    ensures
        bit_field(with_bit_field(x, s, e, v), s, e) == if s < e {
            v % pow2((e - s) as nat)
        } else {
            0
        },
{
    if s < e {
        let d = (e - s) as nat;
        let y = with_bit_field(x, s, e, v);
        lemma_bit_field_bound(y, s, e, e);
        lemma_pow2_pos(d);
        vstd::arithmetic::div_mod::lemma_mod_pos_bound(v as int, pow2(d) as int);
        assert forall|i: nat| i < d implies #[trigger] bit_is_set(bit_field(y, s, e), i)
            == bit_is_set(v % pow2(d), i) by {
            lemma_bit_of_bit_field(y, s, e, i);
            lemma_bit_of_with_bit_field(x, s, e, v, s + i);
            lemma_bit_of_low(v, d, i);
        }
        lemma_bits_determine(bit_field(y, s, e), v % pow2(d), d);
    }
}

/// Writing back the field that was read leaves the number unchanged.
pub proof fn law_write_back_read(x: nat, s: nat, e: nat)
    ensures
        with_bit_field(x, s, e, bit_field(x, s, e)) == x,
{
    assert forall|i: nat| #[trigger] bit_is_set(with_bit_field(x, s, e, bit_field(x, s, e)), i)
        == bit_is_set(x, i) by {
        lemma_bit_of_with_bit_field(x, s, e, bit_field(x, s, e), i);
        if s <= i < e {
            lemma_bit_of_bit_field(x, s, e, (i - s) as nat);
        }
    }
    lemma_equal_by_digits(with_bit_field(x, s, e, bit_field(x, s, e)), x);
}

/// Of two writes to the same field, the second one wins.
pub proof fn law_last_write_wins(x: nat, s: nat, e: nat, v1: nat, v2: nat)
    ensures
        with_bit_field(with_bit_field(x, s, e, v1), s, e, v2) == with_bit_field(x, s, e, v2),
{
    let y = with_bit_field(x, s, e, v1);
    assert forall|i: nat| #[trigger] bit_is_set(with_bit_field(y, s, e, v2), i) == bit_is_set(
        with_bit_field(x, s, e, v2),
        i,
    ) by {
        lemma_bit_of_with_bit_field(y, s, e, v2, i);
        lemma_bit_of_with_bit_field(x, s, e, v2, i);
        lemma_bit_of_with_bit_field(x, s, e, v1, i);
    }
    lemma_equal_by_digits(with_bit_field(y, s, e, v2), with_bit_field(x, s, e, v2));
}

/// Writing a field leaves every digit outside it as it was.
pub proof fn law_write_keeps_other_bits(x: nat, s: nat, e: nat, v: nat, i: nat)
    requires
        !(s <= i < e),
    ensures
        bit_is_set(with_bit_field(x, s, e, v), i) == bit_is_set(x, i),
{
    lemma_bit_of_with_bit_field(x, s, e, v, i);
}

/// Writing one bit and reading it back gives the value written.
pub proof fn law_read_bit_after_write(x: nat, i: nat, value: bool)
    ensures
        bit_is_set(with_bit_field(x, i, i + 1, digit(value)), i) == value,
{
    lemma_bit_of_with_bit_field(x, i, i + 1, digit(value), i);
    vstd::arithmetic::power2::lemma2_to64();
}

/// Writing a bit back with the value that was read leaves the number
/// unchanged.
pub proof fn law_write_back_bit(x: nat, i: nat)
    ensures
        with_bit_field(x, i, i + 1, digit(bit_is_set(x, i))) == x,
{
    law_bit_is_one_bit_field(x, i);
    lemma_bit_field_bound(x, i, i + 1, i + 1);
    vstd::arithmetic::power2::lemma2_to64();
    assert((i + 1 - i) as nat == 1);
    assert(digit(bit_is_set(x, i)) == bit_field(x, i, i + 1));
    law_write_back_read(x, i, i + 1);
}

/// A bit is set exactly when the one-bit field at its position is one.
pub proof fn law_bit_is_one_bit_field(x: nat, i: nat)
    ensures
        bit_is_set(x, i) == (bit_field(x, i, i + 1) == 1),
{
    vstd::arithmetic::power2::lemma2_to64();
    assert((i + 1 - i) as nat == 1);
}

/// The field of all `w` bits of a number below `2^w` is the number, and
/// writing all `w` bits of a number below `2^w` gives the value written
/// when it is below `2^w` too.
pub proof fn law_whole_width(x: nat, v: nat, w: nat)
    requires
        x < pow2(w),
        v < pow2(w),
    ensures
        bit_field(x, 0, w) == if 0 < w { x } else { 0 },
        with_bit_field(x, 0, w, v) == if 0 < w { v } else { x },
{
    vstd::arithmetic::power2::lemma2_to64();
    if 0 < w {
        lemma_bit_field_bound(x, 0, w, w);
        lemma_with_bit_field_bound(x, 0, w, v, w);
        assert forall|i: nat| i < w implies #[trigger] bit_is_set(bit_field(x, 0, w), i)
            == bit_is_set(x, i) by {
            lemma_bit_of_bit_field(x, 0, w, i);
        }
        lemma_bits_determine(bit_field(x, 0, w), x, w);
        assert forall|i: nat| i < w implies #[trigger] bit_is_set(with_bit_field(x, 0, w, v), i)
            == bit_is_set(v, i) by {
            lemma_bit_of_with_bit_field(x, 0, w, v, i);
        }
        lemma_bits_determine(with_bit_field(x, 0, w, v), v, w);
    }
}

/// Cutting a position at a width gives the smaller of the two.
pub proof fn law_clamp(b: nat, w: nat)
    ensures
        clamp(b, w) <= b,
        clamp(b, w) <= w,
        clamp(b, w) == b || clamp(b, w) == w,
{
}

/// Two to the power `i` has bit `i` set, zero has no bit set, and bit 0 is
/// the parity.
pub proof fn law_bit_basics(x: nat, i: nat)
    ensures
        bit_is_set(pow2(i), i),
        !bit_is_set(0, i),
        bit_is_set(x, 0) == (x % 2 == 1),
{
    lemma_pow2_pos(i);
    vstd::arithmetic::div_mod::lemma_div_basics(pow2(i) as int);
    vstd::arithmetic::power2::lemma2_to64();
    vstd::arithmetic::div_mod::lemma_basic_div(0, pow2(i) as int);
}

} // verus!
