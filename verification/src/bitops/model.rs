//! The arithmetic model of bits and bit fields that the contracts of the
//! bit operations are stated in, with the facts about it that they need.

use vstd::prelude::*;
use vstd::arithmetic::power2::{pow2, lemma_pow2_pos, lemma_pow2_adds, lemma_pow2_strictly_increases};
use vstd::arithmetic::div_mod::{
    lemma_div_denominator,
    lemma_div_multiples_vanish_fancy,
    lemma_mod_multiples_vanish,
    lemma_fundamental_div_mod,
    lemma_mod_pos_bound,
};
use vstd::arithmetic::mul::lemma_mul_is_associative;

verus! {

/// Whether the `i`-th binary digit of `x` is one.
pub open spec fn bit_is_set(x: nat, i: nat) -> bool {
    (x / pow2(i)) % 2 == 1
}

/// The number formed by the binary digits `s..e` of `x` (zero when the
/// range is empty).
pub open spec fn bit_field(x: nat, s: nat, e: nat) -> nat {
    if s < e {
        (x / pow2(s)) % pow2((e - s) as nat)
    } else {
        0
    }
}

/// `x` with its binary digits `s..e` replaced by the low `e - s` digits of
/// `v` (`x` itself when the range is empty).
pub open spec fn with_bit_field(x: nat, s: nat, e: nat, v: nat) -> nat {
    if s < e {
        (x / pow2(e)) * pow2(e) + (v % pow2((e - s) as nat)) * pow2(s) + x % pow2(s)
    } else {
        x
    }
}

/// The binary digit that a bit value stands for.
pub open spec fn digit(value: bool) -> nat {
    if value {
        1
    } else {
        0
    }
}

/// `b` when it is below `w`, `w` otherwise.
pub open spec fn clamp(b: nat, w: nat) -> nat {
    if b < w {
        b
    } else {
        w
    }
}

/// The digit of a number written as `a * 2^k + b`, with `b < 2^k`, at
/// position `i` comes from `b` below `k` and from `a` above.
pub proof fn lemma_bit_of_concat(a: nat, b: nat, k: nat, i: nat)
    requires
        b < pow2(k),
    ensures
        bit_is_set(a * pow2(k) + b, i) == if i < k {
            bit_is_set(b, i)
        } else {
            bit_is_set(a, (i - k) as nat)
        },
{
    let x = a * pow2(k) + b;
    lemma_pow2_pos(k);
    lemma_pow2_pos(i);
    if i < k {
        let d = (k - i) as nat;
        lemma_pow2_adds(i, d);
        lemma_pow2_pos(d);
        let pi = pow2(i);
        let pd = pow2(d);
        // b == pi * (b / pi) + b % pi
        lemma_fundamental_div_mod(b as int, pi as int);
        lemma_mod_pos_bound(b as int, pi as int);
        let q = a * pd + b / pi;
        assert(x == pi * q + b % pi) by (nonlinear_arith)
            requires
                x == a * pow2(k) + b,
                pow2(k) == pi * pd,
                b == pi * (b / pi) + b % pi,
                q == a * pd + b / pi,
        ;
        lemma_div_multiples_vanish_fancy(q as int, (b % pi) as int, pi as int);
        assert(x / pi == q);
        // pd is even since d >= 1
        lemma_pow2_adds(1, (d - 1) as nat);
        vstd::arithmetic::power2::lemma2_to64();
        let h = a * pow2((d - 1) as nat);
        assert(q == 2 * h + b / pi) by (nonlinear_arith)
            requires
                q == a * pd + b / pi,
                pd == pow2(1) * pow2((d - 1) as nat),
                pow2(1) == 2,
                h == a * pow2((d - 1) as nat),
        ;
        lemma_mod_multiples_vanish(h as int, (b / pi) as int, 2);
    } else {
        let d = (i - k) as nat;
        lemma_pow2_adds(k, d);
        lemma_pow2_pos(d);
        let pk = pow2(k);
        assert(x == pk * a + b) by (nonlinear_arith)
            requires
                x == a * pow2(k) + b,
                pk == pow2(k),
        ;
        lemma_div_multiples_vanish_fancy(a as int, b as int, pk as int);
        lemma_div_denominator(x as int, pk as int, pow2(d) as int);
    }
}

/// Digit `i + 1` of `x` is digit `i` of `x / 2`, and digit 0 is the parity.
pub proof fn lemma_bit_of_half(x: nat, i: nat)
    ensures
        bit_is_set(x, i + 1) == bit_is_set(x / 2, i),
        bit_is_set(x, 0) == (x % 2 == 1),
{
    vstd::arithmetic::power2::lemma2_to64();
    lemma_pow2_adds(1, i);
    lemma_pow2_pos(i);
    lemma_div_denominator(x as int, 2, pow2(i) as int);
}

/// Two numbers below `2^w` whose first `w` digits agree are equal.
pub proof fn lemma_bits_determine(a: nat, b: nat, w: nat)
    requires
        a < pow2(w),
        b < pow2(w),
        forall|i: nat| i < w ==> #[trigger] bit_is_set(a, i) == bit_is_set(b, i),
    ensures
        a == b,
    decreases w,
{
    vstd::arithmetic::power2::lemma2_to64();
    if w == 0 {
    } else {
        lemma_pow2_adds(1, (w - 1) as nat);
        assert forall|i: nat| i < (w - 1) as nat implies #[trigger] bit_is_set(a / 2, i)
            == bit_is_set(b / 2, i) by {
            lemma_bit_of_half(a, i);
            lemma_bit_of_half(b, i);
            assert(bit_is_set(a, i + 1) == bit_is_set(b, i + 1));
        }
        lemma_bit_of_half(a, 0);
        lemma_bit_of_half(b, 0);
        assert(bit_is_set(a, 0) == bit_is_set(b, 0));
        lemma_bits_determine(a / 2, b / 2, (w - 1) as nat);
    }
}


/// The digits of `x % 2^m` are those of `x` below `m` and zero above.
pub proof fn lemma_bit_of_low(x: nat, m: nat, i: nat)
    ensures
        bit_is_set(x % pow2(m), i) == (i < m && bit_is_set(x, i)),
{
    lemma_pow2_pos(m);
    lemma_pow2_pos(i);
    lemma_fundamental_div_mod(x as int, pow2(m) as int);
    lemma_mod_pos_bound(x as int, pow2(m) as int);
    let hi = x / pow2(m);
    let lo = x % pow2(m);
    assert(x == hi * pow2(m) + lo) by (nonlinear_arith)
        requires
            x == pow2(m) * (x / pow2(m)) + x % pow2(m),
            hi == x / pow2(m),
            lo == x % pow2(m),
    ;
    lemma_bit_of_concat(hi, lo, m, i);
    if i >= m {
        if i > m {
            lemma_pow2_strictly_increases(m, i);
        }
        vstd::arithmetic::div_mod::lemma_basic_div(lo as int, pow2(i) as int);
    }
}

/// The digits of `x / 2^s` are those of `x` from `s` on.
pub proof fn lemma_bit_of_high(x: nat, s: nat, i: nat)
    ensures
        bit_is_set(x / pow2(s), i) == bit_is_set(x, s + i),
{
    lemma_pow2_pos(s);
    lemma_pow2_pos(i);
    lemma_pow2_adds(s, i);
    lemma_div_denominator(x as int, pow2(s) as int, pow2(i) as int);
}

/// A bit field is below `2^(e - s)`, and so below `2^w` when `e <= w`.
pub proof fn lemma_bit_field_bound(x: nat, s: nat, e: nat, w: nat)
    requires
        e <= w,
    ensures
        s < e ==> bit_field(x, s, e) < pow2((e - s) as nat),
        bit_field(x, s, e) < pow2(w),
{
    lemma_pow2_pos(w);
    if s < e {
        let d = (e - s) as nat;
        lemma_pow2_pos(d);
        lemma_pow2_pos(s);
        lemma_mod_pos_bound((x / pow2(s)) as int, pow2(d) as int);
        if d < w {
            lemma_pow2_strictly_increases(d, w);
        }
    }
}

/// Digit `i` of the field `s..e` of `x` is digit `s + i` of `x` when
/// `s + i < e`, and zero otherwise.
pub proof fn lemma_bit_of_bit_field(x: nat, s: nat, e: nat, i: nat)
    ensures
        bit_is_set(bit_field(x, s, e), i) == (s + i < e && bit_is_set(x, s + i)),
{
    if s < e {
        lemma_bit_of_low(x / pow2(s), (e - s) as nat, i);
        lemma_bit_of_high(x, s, i);
    } else {
        lemma_pow2_pos(i);
        vstd::arithmetic::div_mod::lemma_basic_div(0, pow2(i) as int);
    }
}

/// `with_bit_field(x, s, e, v)` is `x` with the field `s..e` made of the low
/// digits of `v`, and the same number written as one sum.
pub proof fn lemma_with_bit_field_parts(x: nat, s: nat, e: nat, v: nat)
    requires
        s < e,
    ensures
        with_bit_field(x, s, e, v) == ((x / pow2(e)) * pow2((e - s) as nat) + v % pow2(
            (e - s) as nat,
        )) * pow2(s) + x % pow2(s),
        x % pow2(s) < pow2(s),
        v % pow2((e - s) as nat) < pow2((e - s) as nat),
{
    let d = (e - s) as nat;
    lemma_pow2_pos(s);
    lemma_pow2_pos(d);
    lemma_pow2_adds(d, s);
    assert((d + s) as nat == e);
    lemma_mod_pos_bound(x as int, pow2(s) as int);
    lemma_mod_pos_bound(v as int, pow2(d) as int);
    let hi = x / pow2(e);
    let mid = v % pow2(d);
    assert(hi * pow2(e) + mid * pow2(s) == (hi * pow2(d) + mid) * pow2(s)) by (nonlinear_arith)
        requires
            pow2(e) == pow2(d) * pow2(s),
    ;
}

/// Digit `i` of `with_bit_field(x, s, e, v)` is digit `i - s` of `v` inside
/// `s..e` and digit `i` of `x` outside.
pub proof fn lemma_bit_of_with_bit_field(x: nat, s: nat, e: nat, v: nat, i: nat)
    ensures
        bit_is_set(with_bit_field(x, s, e, v), i) == if s <= i < e {
            bit_is_set(v, (i - s) as nat)
        } else {
            bit_is_set(x, i)
        },
{
    if s < e {
        let d = (e - s) as nat;
        lemma_with_bit_field_parts(x, s, e, v);
        let hi = x / pow2(e);
        let mid = v % pow2(d);
        let upper = hi * pow2(d) + mid;
        lemma_bit_of_concat(upper, x % pow2(s), s, i);
        if i < s {
            lemma_bit_of_low(x, s, i);
        } else {
            let j = (i - s) as nat;
            lemma_bit_of_concat(hi, mid, d, j);
            if j < d {
                lemma_bit_of_low(v, d, j);
            } else {
                lemma_bit_of_high(x, e, (j - d) as nat);
                assert(e + (j - d) == i);
            }
        }
    }
}

/// Replacing a field of a number below `2^w` inside the first `w` digits
/// keeps it below `2^w`.
pub proof fn lemma_with_bit_field_bound(x: nat, s: nat, e: nat, v: nat, w: nat)
    requires
        x < pow2(w),
        e <= w,
    ensures
        with_bit_field(x, s, e, v) < pow2(w),
{
    if s < e {
        let d = (e - s) as nat;
        lemma_with_bit_field_parts(x, s, e, v);
        lemma_pow2_pos(e);
        lemma_pow2_pos(s);
        lemma_pow2_pos(d);
        let hi = x / pow2(e);
        let mid = v % pow2(d);
        let lo = x % pow2(s);
        // hi < 2^(w - e)
        lemma_pow2_adds((w - e) as nat, e);
        assert((w - e) as nat + e == w);
        lemma_pow2_pos((w - e) as nat);
        vstd::arithmetic::div_mod::lemma_div_is_ordered(x as int, (pow2(w) - 1) as int, pow2(e) as int);
        assert(hi < pow2((w - e) as nat)) by (nonlinear_arith)
            requires
                hi <= (pow2(w) - 1) / (pow2(e) as int),
                pow2(w) == pow2((w - e) as nat) * pow2(e),
                pow2(e) > 0,
        ;
        lemma_pow2_adds(d, s);
        assert(d + s == e);
        assert(with_bit_field(x, s, e, v) < pow2(w)) by (nonlinear_arith)
            requires
                with_bit_field(x, s, e, v) == (hi * pow2(d) + mid) * pow2(s) + lo,
                hi < pow2((w - e) as nat),
                mid < pow2(d),
                lo < pow2(s),
                pow2(w) == pow2((w - e) as nat) * pow2(e),
                pow2(e) == pow2(d) * pow2(s),
        ;
    }
}


/// A number below `2^w` whose first `w` digits are those of the field
/// `s..e` of `x` is that field.
pub proof fn lemma_bit_field_from_digits(r: nat, x: nat, s: nat, e: nat, w: nat)
    requires
        r < pow2(w),
        e <= w,
        forall|i: nat| i < w ==> #[trigger] bit_is_set(r, i) == (s + i < e && bit_is_set(x, s + i)),
    ensures
        r == bit_field(x, s, e),
{
    lemma_bit_field_bound(x, s, e, w);
    assert forall|i: nat| i < w implies #[trigger] bit_is_set(r, i) == bit_is_set(
        bit_field(x, s, e),
        i,
    ) by {
        lemma_bit_of_bit_field(x, s, e, i);
    }
    lemma_bits_determine(r, bit_field(x, s, e), w);
}

/// A number below `2^w` whose first `w` digits are those of `x` with the
/// field `s..e` taken from `v` is `with_bit_field(x, s, e, v)`.
pub proof fn lemma_with_bit_field_from_digits(r: nat, x: nat, s: nat, e: nat, v: nat, w: nat)
    requires
        r < pow2(w),
        x < pow2(w),
        e <= w,
        forall|i: nat| i < w ==> #[trigger] bit_is_set(r, i) == if s <= i < e {
            bit_is_set(v, (i - s) as nat)
        } else {
            bit_is_set(x, i)
        },
    ensures
        r == with_bit_field(x, s, e, v),
{
    lemma_with_bit_field_bound(x, s, e, v, w);
    assert forall|i: nat| i < w implies #[trigger] bit_is_set(r, i) == bit_is_set(
        with_bit_field(x, s, e, v),
        i,
    ) by {
        lemma_bit_of_with_bit_field(x, s, e, v, i);
    }
    lemma_bits_determine(r, with_bit_field(x, s, e, v), w);
}

} // verus!
