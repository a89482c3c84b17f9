use vstd::prelude::*;

use vstd::arithmetic::div_mod::{
    lemma_mod_add_multiples_vanish, lemma_mod_division_less_than_divisor,
    lemma_mod_sub_multiples_vanish, lemma_mod_twice, lemma_mul_mod_noop_left, lemma_small_mod,
};

verus! {

/// The machine word: every stack value and arithmetic result is one of these.
///
/// The word width is a configuration constant of the core; this build uses a
/// 32-bit signed word, applied uniformly.
pub type Word = i32;

/// Number of bytes in one machine word.
pub const WORD_BYTES: i32 = 4;

/// Reduction of an unbounded integer into the word range, two's-complement
/// style: the result is congruent to `x` modulo `2^32` and lies between
/// `i32::MIN` and `i32::MAX`.
pub open spec fn wrap_word(x: int) -> Word {
    vstd::wrapping::i32_specs::signed_crop(x)
}

/// Magnitude of an integer.
pub open spec fn int_abs(x: int) -> int {
    if x < 0 {
        -x
    } else {
        x
    }
}

/// Sign of the product `a * b`: `1`, `-1`, or `0`.
pub open spec fn product_sign(a: int, b: int) -> int {
    if a == 0 || b == 0 {
        0
    } else if (a < 0) == (b < 0) {
        1
    } else {
        -1
    }
}

/// Division truncated toward zero, the way the machine divides.
pub open spec fn trunc_div(a: int, b: int) -> int {
    product_sign(a, b) * (int_abs(a) / int_abs(b))
}

/// Remainder of division truncated toward zero: its sign follows the dividend.
pub open spec fn trunc_rem(a: int, b: int) -> int {
    if a < 0 {
        -(int_abs(a) % int_abs(b))
    } else {
        int_abs(a) % int_abs(b)
    }
}

/// Wrapping a value already in the word range changes nothing.
pub proof fn lemma_wrap_in_range(x: int)
    requires
        i32::MIN <= x <= i32::MAX,
    ensures
        wrap_word(x) == x,
{
    if x >= 0 {
        lemma_small_mod(x as nat, 0x1_0000_0000nat);
    } else {
        lemma_mod_add_multiples_vanish(x, 0x1_0000_0000);
        lemma_small_mod((x + 0x1_0000_0000) as nat, 0x1_0000_0000nat);
    }
}

/// The standard-library wrapping addition is exactly `wrap_word` of the sum.
pub proof fn lemma_wrapping_add_is_wrap(a: Word, b: Word)
    ensures
        vstd::wrapping::i32_specs::wrapping_add(a, b) == wrap_word(a + b),
{
    let x = a + b;
    if x > i32::MAX {
        lemma_small_mod(x as nat, 0x1_0000_0000nat);
    } else if x < i32::MIN {
        lemma_mod_add_multiples_vanish(x, 0x1_0000_0000);
        lemma_small_mod((x + 0x1_0000_0000) as nat, 0x1_0000_0000nat);
    } else {
        lemma_wrap_in_range(x);
    }
}

/// The standard-library wrapping subtraction is exactly `wrap_word` of the
/// difference.
pub proof fn lemma_wrapping_sub_is_wrap(a: Word, b: Word)
    ensures
        vstd::wrapping::i32_specs::wrapping_sub(a, b) == wrap_word(a - b),
{
    let x = a - b;
    if x > i32::MAX {
        lemma_small_mod(x as nat, 0x1_0000_0000nat);
    } else if x < i32::MIN {
        lemma_mod_add_multiples_vanish(x, 0x1_0000_0000);
        lemma_small_mod((x + 0x1_0000_0000) as nat, 0x1_0000_0000nat);
    } else {
        lemma_wrap_in_range(x);
    }
}

/// Wrapping depends only on the residue modulo `2^32`, so a wrapped factor can
/// be replaced by the unwrapped one under a further wrap.
pub proof fn lemma_wrap_mul_left(x: int, y: int)
    ensures
        wrap_word(wrap_word(x) * y) == wrap_word(x * y),
{
    let m = 0x1_0000_0000int;
    let c = wrap_word(x) as int;
    lemma_mod_division_less_than_divisor(x, m);
    lemma_mod_twice(x, m);
    lemma_mod_sub_multiples_vanish(x % m, m);
    assert(c % m == x % m);
    lemma_mul_mod_noop_left(c, y, m);
    lemma_mul_mod_noop_left(x, y, m);
    assert((c * y) % m == (x * y) % m);
}

} // verus!
