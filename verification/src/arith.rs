//! Integer helpers: the range of `i128`, truncating division as Rust performs
//! it, saturating operations and the integer square root.
use vstd::prelude::*;

verus! {

/// `x` is representable as an `i128`.
pub open spec fn in_i128(x: int) -> bool {
    i128::MIN <= x <= i128::MAX
}

/// Signed division rounding toward zero, as Rust's `/` on integers.
pub open spec fn trunc_div(x: int, d: int) -> int {
    if x == 0 {
        0
    } else if x > 0 && d > 0 {
        x / d
    } else if x < 0 && d < 0 {
        (x * -1) / (d * -1)
    } else if x < 0 {
        ((x * -1) / d) * -1
    } else {
        (x / (d * -1)) * -1
    }
}

/// A Rust `/` on `i128` with these operands panics.
pub open spec fn div_panics(x: int, d: int) -> bool {
    d == 0 || (x == i128::MIN && d == -1)
}

/// `x / d` on `i128`, rounding toward zero.
pub fn div_i128(x: i128, d: i128) -> (q: i128)
    requires
        !div_panics(x as int, d as int),
    ensures
        q == trunc_div(x as int, d as int),
{
    match x.checked_div(d) {
        Some(q) => q,
        None => {
            proof {
                lemma_trunc_div_in_range(x as int, d as int);
            }
            0
        },
    }
}

/// Truncating division of an `i128` stays in range except for `MIN / -1`.
pub proof fn lemma_trunc_div_in_range(x: int, d: int)
    requires
        in_i128(x),
        !div_panics(x, d),
    ensures
        in_i128(trunc_div(x, d)),
{
    if x > 0 && d > 0 {
        vstd::arithmetic::div_mod::lemma_div_is_ordered_by_denominator(x, 1, d);
        vstd::arithmetic::div_mod::lemma_div_pos_is_pos(x, d);
    } else if x < 0 && d < 0 {
        vstd::arithmetic::div_mod::lemma_div_is_ordered_by_denominator(x * -1, 1, d * -1);
        vstd::arithmetic::div_mod::lemma_div_pos_is_pos(x * -1, d * -1);
        if d == -1 {
            assert((x * -1) / (d * -1) == x * -1);
        } else {
            assert(d * -1 >= 2);
            vstd::arithmetic::div_mod::lemma_div_is_ordered_by_denominator(x * -1, 2, d * -1);
            assert((x * -1) / 2 <= i128::MAX);
        }
    } else if x < 0 && d > 0 {
        vstd::arithmetic::div_mod::lemma_div_is_ordered_by_denominator(x * -1, 1, d);
        vstd::arithmetic::div_mod::lemma_div_pos_is_pos(x * -1, d);
    } else if x > 0 && d < 0 {
        vstd::arithmetic::div_mod::lemma_div_is_ordered_by_denominator(x, 1, d * -1);
        vstd::arithmetic::div_mod::lemma_div_pos_is_pos(x, d * -1);
    }
}

/// Truncating division by a positive divisor is monotone in the dividend.
pub proof fn lemma_trunc_div_monotone(x: int, y: int, d: int)
    requires
        x <= y,
        d > 0,
    ensures
        trunc_div(x, d) <= trunc_div(y, d),
{
    if x >= 0 {
        vstd::arithmetic::div_mod::lemma_div_is_ordered(x, y, d);
    } else if y <= 0 {
        vstd::arithmetic::div_mod::lemma_div_is_ordered(y * -1, x * -1, d);
    } else {
        vstd::arithmetic::div_mod::lemma_div_pos_is_pos(x * -1, d);
        vstd::arithmetic::div_mod::lemma_div_pos_is_pos(y, d);
    }
}

/// `i128::saturating_add`.
pub open spec fn sat_add(x: int, y: int) -> int {
    if x + y > i128::MAX {
        i128::MAX as int
    } else if x + y < i128::MIN {
        i128::MIN as int
    } else {
        x + y
    }
}

/// `i128::saturating_mul`.
pub open spec fn sat_mul(x: int, y: int) -> int {
    if x * y > i128::MAX {
        i128::MAX as int
    } else if x * y < i128::MIN {
        i128::MIN as int
    } else {
        x * y
    }
}

/// `x.saturating_add(y)` on `i128`.
pub fn saturating_add_i128(x: i128, y: i128) -> (r: i128)
    ensures
        r == sat_add(x as int, y as int),
{
    match x.checked_add(y) {
        Some(v) => v,
        None => if y > 0 {
            i128::MAX
        } else {
            i128::MIN
        },
    }
}

/// `x.saturating_mul(y)` on `i128`.
pub fn saturating_mul_i128(x: i128, y: i128) -> (r: i128)
    ensures
        r == sat_mul(x as int, y as int),
{
    match x.checked_mul(y) {
        Some(v) => v,
        None => {
            if (x > 0 && y > 0) || (x < 0 && y < 0) {
                proof {
                    if x > 0 {
                        vstd::arithmetic::mul::lemma_mul_strictly_positive(x as int, y as int);
                    } else {
                        vstd::arithmetic::mul::lemma_mul_strictly_positive(-x, -y);
                        assert((-x) * (-y) == x * y) by (nonlinear_arith);
                    }
                }
                i128::MAX
            } else {
                proof {
                    if x == 0 || y == 0 {
                        assert(x * y == 0) by (nonlinear_arith)
                            requires x == 0 || y == 0;
                    } else if x > 0 {
                        vstd::arithmetic::mul::lemma_mul_strictly_positive(x as int, -y);
                        assert(x * (-y) == -(x * y)) by (nonlinear_arith);
                    } else {
                        vstd::arithmetic::mul::lemma_mul_strictly_positive(-x, y as int);
                        assert((-x) * y == -(x * y)) by (nonlinear_arith);
                    }
                }
                i128::MIN
            }
        },
    }
}

/// `r` is the integer square root of `y`: the greatest `r` with `r * r <= y`.
pub open spec fn is_floor_sqrt(y: int, r: int) -> bool {
    &&& 0 <= r
    &&& r * r <= y
    &&& y < (r + 1) * (r + 1)
}

/// The integer square root of a non-negative value, and 0 below zero.
pub open spec fn floor_sqrt(y: int) -> int {
    if y <= 0 {
        0
    } else {
        choose|r: int| is_floor_sqrt(y, r)
    }
}

/// The square root is unique.
pub proof fn lemma_floor_sqrt_unique(y: int, r: int, s: int)
    requires
        is_floor_sqrt(y, r),
        is_floor_sqrt(y, s),
    ensures
        r == s,
{
    if r < s {
        assert((r + 1) * (r + 1) <= s * s) by (nonlinear_arith)
            requires 0 <= r, r + 1 <= s;
    } else if s < r {
        assert((s + 1) * (s + 1) <= r * r) by (nonlinear_arith)
            requires 0 <= s, s + 1 <= r;
    }
}

/// Searching upward from a value whose square fits finds the square root.
proof fn lemma_floor_sqrt_search(y: int, r: int)
    requires
        0 <= r,
        r * r <= y,
    ensures
        exists|s: int| is_floor_sqrt(y, s),
    decreases y - r,
{
    if (r + 1) * (r + 1) <= y {
        assert(r + 1 <= (r + 1) * (r + 1)) by (nonlinear_arith)
            requires r >= 0;
        lemma_floor_sqrt_search(y, r + 1);
    } else {
        assert(is_floor_sqrt(y, r));
    }
}

/// Every positive value has an integer square root, and `floor_sqrt` is it.
pub proof fn lemma_floor_sqrt_exists(y: int)
    requires
        y > 0,
    ensures
        is_floor_sqrt(y, floor_sqrt(y)),
{
    lemma_floor_sqrt_search(y, 0);
}

/// Integer square root, rounding down; 0 for values at or below zero.
pub fn sqrt(y: i128) -> (r: i128)
    ensures
        r == floor_sqrt(y as int),
        y > 0 ==> is_floor_sqrt(y as int, r as int),
{
    if y <= 0 {
        return 0;
    }
    // Invariant: lo * lo <= y < hi * hi.
    let mut lo: i128 = 0;
    let mut hi: i128 = 0x1_0000_0000_0000_0000i128;
    assert(y < hi * hi) by (nonlinear_arith)
        requires y <= i128::MAX, hi == 0x1_0000_0000_0000_0000i128;
    while hi - lo > 1
        invariant
            0 <= lo < hi <= 0x1_0000_0000_0000_0000i128,
            lo * lo <= y,
            y < hi * hi,
        decreases hi - lo,
    {
        let mid = lo + (hi - lo) / 2;
        assert(lo < mid < hi);
        assert(mid * mid <= 0x1_0000_0000_0000_0000i128 * 0x1_0000_0000_0000_0000i128) by (nonlinear_arith)
            requires 0 <= mid <= 0x1_0000_0000_0000_0000i128;
        if mid <= y / mid {
            proof {
                vstd::arithmetic::div_mod::lemma_fundamental_div_mod(y as int, mid as int);
                assert(mid * mid <= mid * (y / mid)) by (nonlinear_arith)
                    requires mid > 0, mid <= y / mid;
            }
            lo = mid;
        } else {
            proof {
                vstd::arithmetic::div_mod::lemma_fundamental_div_mod(y as int, mid as int);
                assert(y < mid * mid) by (nonlinear_arith)
                    requires
                        mid > 0,
                        mid > y / mid,
                        y == mid * (y / mid) + y % mid,
                        0 <= y % mid < mid;
            }
            hi = mid;
        }
    }
    proof {
        assert(hi == lo + 1);
        assert(is_floor_sqrt(y as int, lo as int));
        lemma_floor_sqrt_unique(y as int, lo as int, floor_sqrt(y as int));
    }
    lo
}

} // verus!
