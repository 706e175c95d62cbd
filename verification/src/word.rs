//! Signed 32-bit arithmetic as the machine performs it: sums, differences and
//! products in two's complement, quotients and remainders truncated towards
//! zero.

use vstd::prelude::*;
use vstd::arithmetic::div_mod::{
    lemma_basic_div, lemma_div_decreases, lemma_div_nonincreasing, lemma_div_pos_is_pos,
    lemma_fundamental_div_mod, lemma_mod_bound, lemma_mod_multiples_vanish, lemma_small_mod,
};
use vstd::wrapping::i32_specs;

verus! {

/// The signed 32-bit integer that is congruent to `n` modulo 2^32.
pub open spec fn wrap_i32(n: int) -> i32 {
    let low = n % 0x1_0000_0000;
    if low > i32::MAX {
        (low - 0x1_0000_0000) as i32
    } else {
        low as i32
    }
}

/// The quotient of `a` by `b`, rounded towards zero.
pub open spec fn truncated_quotient(a: int, b: int) -> int
    recommends
        b != 0,
{
    let quotient = abs(a) / abs(b);
    if (a < 0) != (b < 0) {
        -quotient
    } else {
        quotient
    }
}

/// The remainder that [`truncated_quotient`] leaves: it has the sign of `a`.
pub open spec fn truncated_remainder(a: int, b: int) -> int
    recommends
        b != 0,
{
    let remainder = abs(a) % abs(b);
    if a < 0 {
        -remainder
    } else {
        remainder
    }
}

/// The absolute value of `n`.
pub open spec fn abs(n: int) -> int {
    if n < 0 {
        -n
    } else {
        n
    }
}

/// Whether the quotient of `a` by `b` exists and fits in 32 bits.
pub open spec fn has_quotient(a: i32, b: i32) -> bool {
    b != 0 && !(a == i32::MIN && b == -1)
}

/// An integer and its wrapped value differ by a multiple of 2^32: the result
/// is the multiplier.
pub proof fn lemma_wrap_offset(n: int) -> (k: int)
    ensures
        wrap_i32(n) == n + k * 0x1_0000_0000,
{
    lemma_fundamental_div_mod(n, 0x1_0000_0000);
    let q = n / 0x1_0000_0000;
    if n % 0x1_0000_0000 > i32::MAX {
        -(q + 1)
    } else {
        -q
    }
}

/// Integers that differ by a multiple of 2^32 wrap to the same value.
pub proof fn lemma_wrap_congruent(a: int, b: int, k: int)
    requires
        a == b + k * 0x1_0000_0000,
    ensures
        wrap_i32(a) == wrap_i32(b),
{
    lemma_mod_multiples_vanish(k, b, 0x1_0000_0000);
}

/// An integer within the signed 32-bit range wraps to itself.
pub proof fn lemma_wrap_in_range(n: int)
    requires
        i32::MIN <= n <= i32::MAX,
    ensures
        wrap_i32(n) == n,
{
    if n >= 0 {
        lemma_small_mod(n as nat, 0x1_0000_0000);
    } else {
        lemma_small_mod((n + 0x1_0000_0000) as nat, 0x1_0000_0000);
        lemma_mod_multiples_vanish(1, n, 0x1_0000_0000);
    }
}

/// The wrapping operations of 32-bit integers compute the wrapped value of
/// the exact sum, difference and product.
pub proof fn lemma_wrapping_operations(a: i32, b: i32)
    ensures
        i32_specs::wrapping_add(a, b) == wrap_i32(a + b),
        i32_specs::wrapping_sub(a, b) == wrap_i32(a - b),
        i32_specs::wrapping_mul(a, b) == wrap_i32(a * b),
{
    let sum = i32_specs::wrapping_add(a, b);
    let j: int = if a + b > i32::MAX {
        -1
    } else if a + b < i32::MIN {
        1
    } else {
        0
    };
    lemma_wrap_in_range(sum as int);
    lemma_wrap_congruent(sum as int, a + b, j);
    let difference = i32_specs::wrapping_sub(a, b);
    let k: int = if a - b > i32::MAX {
        -1
    } else if a - b < i32::MIN {
        1
    } else {
        0
    };
    lemma_wrap_in_range(difference as int);
    lemma_wrap_congruent(difference as int, a - b, k);
}

/// Shifting a digit into a wrapped magnitude in 32-bit arithmetic gives the
/// wrapped value of the longer magnitude.
pub proof fn lemma_shift_in(value: i32, m: int)
    requires
        value == wrap_i32(m),
    ensures
        i32_specs::wrapping_mul(value, 2) == wrap_i32(2 * m),
        i32_specs::wrapping_add(i32_specs::wrapping_mul(value, 2), 1) == wrap_i32(2 * m + 1),
{
    let k = lemma_wrap_offset(m);
    lemma_wrap_congruent(value * 2, 2 * m, 2 * k);
    let doubled = i32_specs::wrapping_mul(value, 2);
    let k2 = lemma_wrap_offset(2 * m);
    let sum = i32_specs::wrapping_add(doubled, 1);
    let j: int = if doubled + 1 > i32::MAX {
        -1
    } else {
        0
    };
    lemma_wrap_in_range(sum as int);
    lemma_wrap_congruent(sum as int, 2 * m + 1, k2 + j);
}

/// Multiplying a wrapped magnitude by a sign in 32-bit arithmetic gives the
/// wrapped value of the signed magnitude.
pub proof fn lemma_apply_sign(value: i32, m: int)
    requires
        value == wrap_i32(m),
    ensures
        i32_specs::wrapping_mul(value, 1) == wrap_i32(m),
        i32_specs::wrapping_mul(value, -1i32) == wrap_i32(-m),
{
    let k = lemma_wrap_offset(m);
    lemma_wrap_in_range(value as int);
    lemma_wrap_congruent(value * -1, -m, -k);
}

/// Quotient and remainder make up the dividend, and the remainder is smaller
/// than the divisor and has the sign of the dividend.
pub proof fn law_truncated_division(a: int, b: int)
    requires
        b != 0,
    ensures
        a == b * truncated_quotient(a, b) + truncated_remainder(a, b),
        abs(truncated_remainder(a, b)) < abs(b),
        truncated_remainder(a, b) == 0 || (truncated_remainder(a, b) < 0) == (a < 0),
{
    let x = abs(a);
    let d = abs(b);
    lemma_fundamental_div_mod(x, d);
    lemma_mod_bound(x, d);
    let q = x / d;
    assert(b * -q == -(b * q)) by (nonlinear_arith);
    assert((-b) * q == -(b * q)) by (nonlinear_arith);
}

/// The checked division and remainder of 32-bit integers give the truncated
/// quotient and remainder, and nothing exactly where the divisor is zero or
/// the quotient does not fit.
pub proof fn lemma_checked_division(a: i32, b: i32)
    ensures
        a.checked_div(b) == if has_quotient(a, b) {
            Some(truncated_quotient(a as int, b as int) as i32)
        } else {
            None
        },
        a.checked_rem(b) == if has_quotient(a, b) {
            Some(truncated_remainder(a as int, b as int) as i32)
        } else {
            None
        },
        has_quotient(a, b) ==> i32::MIN <= truncated_quotient(a as int, b as int) <= i32::MAX,
        has_quotient(a, b) ==> i32::MIN <= truncated_remainder(a as int, b as int) <= i32::MAX,
{
    if b != 0 {
        let x = abs(a as int);
        let d = abs(b as int);
        lemma_div_pos_is_pos(x, d);
        lemma_div_nonincreasing(x, d);
        lemma_mod_bound(x, d);
        if d > 1 && x > 0 {
            lemma_div_decreases(x, d);
        }
        if x == 0 {
            lemma_basic_div(0, d);
            lemma_small_mod(0, d as nat);
        }
    }
}

} // verus!
