//! Alignment arithmetic: rounding an address upwards to a power-of-two
//! alignment.

use vstd::prelude::*;
use vstd::arithmetic::div_mod::{
    lemma_add_mod_noop, lemma_fundamental_div_mod, lemma_mod_multiples_basic, lemma_small_mod,
    lemma_sub_mod_noop,
};

verus! {

/// The smallest multiple of `alignment` that is greater than or equal to
/// `value`.
pub open spec fn spec_round_up_to_alignment(value: int, alignment: int) -> int {
    ((value + alignment - 1) / alignment) * alignment
}

/// The defining properties of `spec_round_up_to_alignment`: the result is the
/// smallest multiple of the alignment at or above `value`.
pub proof fn lemma_round_up_to_alignment(value: int, alignment: int)
    requires
        0 <= value,
        0 < alignment,
    ensures
        value <= spec_round_up_to_alignment(value, alignment) < value + alignment,
        spec_round_up_to_alignment(value, alignment) % alignment == 0,
        value % alignment == 0 ==> spec_round_up_to_alignment(value, alignment) == value,
{
    let s = value + alignment - 1;
    let q = s / alignment;
    lemma_fundamental_div_mod(s, alignment);
    lemma_mod_multiples_basic(q, alignment);
    assert(q * alignment == alignment * q) by (nonlinear_arith);
    assert(spec_round_up_to_alignment(value, alignment) == s - s % alignment);
    if value % alignment == 0 {
        lemma_small_mod((alignment - 1) as nat, alignment as nat);
        lemma_add_mod_noop(value, alignment - 1, alignment);
        assert(s % alignment == alignment - 1);
    }
}

/// Rounds `value` up to the next multiple of `alignment`.
///
/// Used only on machine addresses and offsets treated as unsigned integers.
pub fn round_up_to_alignment(value: usize, alignment: usize) -> (r: usize)
    requires
        0 < alignment,
        value + alignment - 1 <= usize::MAX,
    ensures
        r == spec_round_up_to_alignment(value as int, alignment as int),
        value <= r < value + alignment,
        r % alignment == 0,
{
    proof {
        lemma_round_up_to_alignment(value as int, alignment as int);
    }
    ((value + (alignment - 1)) / alignment) * alignment
}

/// A quantity whose remainder by a multiple of four is still a multiple of
/// four, provided the quantity itself is.
pub proof fn lemma_multiple_of_four_mod(x: int, m: int)
    requires
        0 <= x,
        0 < m,
        x % m == 0,
        m % 4 == 0,
    ensures
        x % 4 == 0,
{
    let q = x / m;
    let k = m / 4;
    lemma_fundamental_div_mod(x, m);
    lemma_fundamental_div_mod(m, 4);
    assert(x == 4 * (k * q)) by (nonlinear_arith)
        requires
            x == m * q,
            m == 4 * k,
    ;
    lemma_mod_multiples_basic(k * q, 4);
    assert((k * q) * 4 == 4 * (k * q)) by (nonlinear_arith);
}

/// The difference of two multiples of four is a multiple of four.
pub proof fn lemma_difference_of_multiples_of_four(a: int, b: int)
    requires
        0 <= b <= a,
        a % 4 == 0,
        b % 4 == 0,
    ensures
        (a - b) % 4 == 0,
{
    lemma_sub_mod_noop(a, b, 4);
}

/// A multiple of four strictly below another multiple of four plus four is at
/// most that other multiple.
pub proof fn lemma_multiple_of_four_below(a: int, b: int)
    requires
        0 <= a,
        0 <= b,
        a % 4 == 0,
        b % 4 == 0,
        a < b + 4,
    ensures
        a <= b,
{
    lemma_fundamental_div_mod(a, 4);
    lemma_fundamental_div_mod(b, 4);
    assert(4 * (a / 4) < 4 * (b / 4) + 4 ==> a / 4 <= b / 4) by (nonlinear_arith);
    assert(a / 4 <= b / 4 ==> 4 * (a / 4) <= 4 * (b / 4)) by (nonlinear_arith);
}

/// The sum of two multiples of four is a multiple of four.
pub proof fn lemma_sum_of_multiples_of_four(a: int, b: int)
    requires
        0 <= a,
        0 <= b,
        a % 4 == 0,
        b % 4 == 0,
    ensures
        (a + b) % 4 == 0,
{
    lemma_add_mod_noop(a, b, 4);
}

} // verus!
