//! Truncating integer division, as a spec-level notion and as a checked
//! executable operation on `i128`.

use vstd::prelude::*;

verus! {

/// Division truncating toward zero (the behaviour of `/` on Rust's signed
/// integers), expressed with the Euclidean `/` of spec arithmetic.
pub open spec fn div_trunc(a: int, b: int) -> int
    recommends
        b != 0,
{
    if b > 0 {
        if a >= 0 {
            a / b
        } else {
            -((-a) / b)
        }
    } else {
        if a >= 0 {
            -(a / (-b))
        } else {
            (-a) / (-b)
        }
    }
}

/// Truncating division of `i128` values.
pub fn div_trunc_i128(a: i128, b: i128) -> (r: i128)
    requires
        b != 0,
        !(a == i128::MIN && b == -1),
    ensures
        r == div_trunc(a as int, b as int),
{
    let q = a.checked_div(b);
    proof {
        let x = a as int;
        let d = if b > 0 { b as int } else { -(b as int) };
        vstd::arithmetic::div_mod::lemma_div_of0(d);
        if x > 0 {
            vstd::arithmetic::div_mod::lemma_div_pos_is_pos(x, d);
            vstd::arithmetic::div_mod::lemma_div_nonincreasing(x, d);
        } else if x < 0 {
            vstd::arithmetic::div_mod::lemma_div_pos_is_pos(-x, d);
            vstd::arithmetic::div_mod::lemma_div_nonincreasing(-x, d);
            if a == i128::MIN && b < -1 {
                vstd::arithmetic::div_mod::lemma_div_is_ordered_by_denominator(-x, 2, d);
                vstd::arithmetic::div_mod::lemma_div_by_multiple(
                    0x4000_0000_0000_0000_0000_0000_0000_0000,
                    2,
                );
            }
        }
    }
    q.unwrap()
}

/// Truncating division never grows the magnitude of the dividend.
pub proof fn lemma_div_trunc_bound(a: int, b: int)
    requires
        b != 0,
    ensures
        div_trunc(a, b) <= (if a >= 0 {
            a
        } else {
            -a
        }),
        div_trunc(a, b) >= (if a >= 0 {
            -a
        } else {
            a
        }),
{
    let d = if b > 0 {
        b
    } else {
        -b
    };
    if a > 0 {
        vstd::arithmetic::div_mod::lemma_div_pos_is_pos(a, d);
        vstd::arithmetic::div_mod::lemma_div_nonincreasing(a, d);
    } else if a < 0 {
        vstd::arithmetic::div_mod::lemma_div_pos_is_pos(-a, d);
        vstd::arithmetic::div_mod::lemma_div_nonincreasing(-a, d);
    } else {
        vstd::arithmetic::div_mod::lemma_div_of0(d);
    }
}

/// A sum of `n` values out of the `i64` range, divided by `n`, lies back in
/// the `i64` range.
pub proof fn lemma_mean_in_range(acc: int, n: int)
    requires
        n > 0,
        n * (i64::MIN as int) <= acc <= n * (i64::MAX as int),
    ensures
        i64::MIN as int <= div_trunc(acc, n) <= i64::MAX as int,
{
    if acc >= 0 {
        vstd::arithmetic::div_mod::lemma_div_pos_is_pos(acc, n);
        vstd::arithmetic::div_mod::lemma_div_is_ordered(acc, n * (i64::MAX as int), n);
        vstd::arithmetic::div_mod::lemma_div_by_multiple(i64::MAX as int, n);
        assert(((i64::MAX as int) * n) / n == i64::MAX as int);
        assert(n * (i64::MAX as int) == (i64::MAX as int) * n) by (nonlinear_arith);
    } else {
        vstd::arithmetic::div_mod::lemma_div_pos_is_pos(-acc, n);
        vstd::arithmetic::div_mod::lemma_div_is_ordered(-acc, n * (-(i64::MIN as int)), n);
        vstd::arithmetic::div_mod::lemma_div_by_multiple(-(i64::MIN as int), n);
        assert(((-(i64::MIN as int)) * n) / n == -(i64::MIN as int));
        assert(n * (-(i64::MIN as int)) == (-(i64::MIN as int)) * n) by (nonlinear_arith);
    }
}

} // verus!
