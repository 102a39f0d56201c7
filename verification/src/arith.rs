//! Rounding helpers shared by the layout resolver and the region
//! writers: division rounding up, and rounding a byte position up to an
//! alignment.

use vstd::arithmetic::div_mod::{
    lemma_div_is_ordered, lemma_div_is_ordered_by_denominator, lemma_fundamental_div_mod,
    lemma_mod_multiples_basic,
};
use vstd::prelude::*;

verus! {

/// Quotient of `x / d`, rounded towards positive infinity.
pub open spec fn div_ceil(x: int, d: int) -> int
    recommends
        x >= 0,
        d > 0,
{
    if x % d == 0 {
        x / d
    } else {
        x / d + 1
    }
}

/// `x` rounded up to the next multiple of `a`.
pub open spec fn round_up_to(x: int, a: int) -> int
    recommends
        x >= 0,
        a > 0,
{
    if x % a == 0 {
        x
    } else {
        x + (a - x % a)
    }
}

/// The rounded-up value is a multiple of the alignment and lies less
/// than one alignment above the original value.
pub proof fn lemma_round_up_to(x: int, a: int)
    requires
        x >= 0,
        a > 0,
    ensures
        round_up_to(x, a) % a == 0,
        x <= round_up_to(x, a) < x + a,
        round_up_to(x, a) == div_ceil(x, a) * a,
{
    lemma_fundamental_div_mod(x, a);
    if x % a == 0 {
        lemma_mod_multiples_basic(x / a, a);
        assert((x / a) * a == a * (x / a)) by (nonlinear_arith);
    } else {
        assert(a * (x / a + 1) == a * (x / a) + a) by (nonlinear_arith);
        assert(round_up_to(x, a) == a * (x / a + 1));
        lemma_mod_multiples_basic(x / a + 1, a);
        assert((a * (x / a + 1)) % a == 0);
        assert(div_ceil(x, a) * a == (x / a + 1) * a);
        assert((x / a + 1) * a == a * (x / a + 1)) by (nonlinear_arith);
    }
}

/// `x / d`, rounded up.
pub fn div_round_up(x: u64, d: u64) -> (r: u64)
    requires
        d > 0,
    ensures
        r == div_ceil(x as int, d as int),
{
    let q: u64 = x / d;
    if x % d == 0 {
        q
    } else {
        proof {
            lemma_div_is_ordered_by_denominator(x as int, 2, d as int);
        }
        q + 1
    }
}

/// `x` rounded up to the next multiple of `a`.
pub fn round_up(x: u64, a: u64) -> (r: u64)
    requires
        a > 0,
        x + a - 1 <= u64::MAX,
    ensures
        r == round_up_to(x as int, a as int),
        x <= r < x + a,
        (r as int) % (a as int) == 0,
{
    proof {
        lemma_round_up_to(x as int, a as int);
    }
    let m: u64 = x % a;
    if m == 0 {
        x
    } else {
        x + (a - m)
    }
}

/// Rounding up from a base that is already aligned advances by whole
/// aligned blocks: the offset contributes its own rounded-up count.
pub proof fn lemma_round_up_offset(a: int, b: int, c: int)
    requires
        a >= 0,
        b >= 0,
        c > 0,
        a % c == 0,
    ensures
        round_up_to(a + b, c) == a + div_ceil(b, c) * c,
{
    lemma_fundamental_div_mod(a, c);
    lemma_fundamental_div_mod(b, c);
    assert((a + b) % c == b % c) by {
        vstd::arithmetic::div_mod::lemma_mod_multiples_vanish(a / c, b, c);
        assert(c * (a / c) + b == a + b);
    }
    if b % c == 0 {
        assert(div_ceil(b, c) * c == (b / c) * c);
        assert((b / c) * c == c * (b / c)) by (nonlinear_arith);
    } else {
        assert(div_ceil(b, c) * c == (b / c + 1) * c);
        assert((b / c + 1) * c == c * (b / c) + c) by (nonlinear_arith);
    }
}

/// Rounding up a positive count gives at least one block.
pub proof fn lemma_div_ceil_pos(x: int, d: int)
    requires
        x >= 1,
        d >= 1,
    ensures
        div_ceil(x, d) >= 1,
{
    if x % d == 0 {
        lemma_fundamental_div_mod(x, d);
        if x / d <= 0 {
            assert(d * (x / d) <= 0) by (nonlinear_arith)
                requires
                    d >= 1,
                    x / d <= 0,
            ;
        }
    } else {
        vstd::arithmetic::div_mod::lemma_div_pos_is_pos(x, d);
    }
}

/// Division by a larger divisor gives a quotient no larger; used to
/// bound layout arithmetic.
pub proof fn lemma_div_shrinks(x: int, small: int, big: int)
    requires
        x >= 0,
        0 < small <= big,
    ensures
        0 <= x / big <= x / small,
{
    lemma_div_is_ordered_by_denominator(x, small, big);
    vstd::arithmetic::div_mod::lemma_div_pos_is_pos(x, big);
}

/// Division is monotone in the dividend.
pub proof fn lemma_div_mono(x: int, y: int, d: int)
    requires
        0 <= x <= y,
        d > 0,
    ensures
        x / d <= y / d,
{
    lemma_div_is_ordered(x, y, d);
}

} // verus!
