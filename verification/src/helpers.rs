//! Pricing helpers of the router: the constant-product formulas, quoting,
//! token ordering and the optimal deposit for adding liquidity.
use vstd::prelude::*;
use crate::arith::{in_i128, trunc_div, div_panics, div_i128};
use crate::errors::RouterError;
use crate::address::{bytes_lt, bytes_equal, bytes_less, sorted_pair};

verus! {

/// Basis points in one whole.
pub const BPS: i128 = 10000;

/// A `Result` over machine integers seen as one over mathematical integers.
pub open spec fn int_result<E>(r: Result<i128, E>) -> Result<int, E> {
    match r {
        Ok(v) => Ok(v as int),
        Err(e) => Err(e),
    }
}

/// A `Result` over a pair of machine integers seen as one over mathematical integers.
pub open spec fn int_pair_result<E>(r: Result<(i128, i128), E>) -> Result<(int, int), E> {
    match r {
        Ok((a, b)) => Ok((a as int, b as int)),
        Err(e) => Err(e),
    }
}

/// Output of an exact-input swap on the constant-product curve:
/// `amount_in * (10000 - fee) * reserve_out / (reserve_in * 10000 + amount_in * (10000 - fee))`,
/// with the error each guard or overflow gives.
pub open spec fn amount_out_spec(amount_in: int, reserve_in: int, reserve_out: int, fee_bps: int) -> Result<int, RouterError> {
    let with_fee = amount_in * (10000 - fee_bps);
    let numerator = with_fee * reserve_out;
    let scaled_in = reserve_in * 10000;
    let denominator = scaled_in + with_fee;
    if amount_in <= 0 {
        Err(RouterError::ZeroAmount)
    } else if reserve_in <= 0 || reserve_out <= 0 {
        Err(RouterError::InsufficientLiquidity)
    } else if !in_i128(with_fee) || !in_i128(numerator) || !in_i128(scaled_in) || !in_i128(denominator) {
        Err(RouterError::InsufficientLiquidity)
    } else {
        Ok(trunc_div(numerator, denominator))
    }
}

/// The exact-input computation reaches a division that panics
/// (possible only with a fee above 10000 basis points).
pub open spec fn amount_out_panics(amount_in: int, reserve_in: int, reserve_out: int, fee_bps: int) -> bool {
    let with_fee = amount_in * (10000 - fee_bps);
    let numerator = with_fee * reserve_out;
    let scaled_in = reserve_in * 10000;
    let denominator = scaled_in + with_fee;
    &&& amount_in > 0
    &&& reserve_in > 0 && reserve_out > 0
    &&& in_i128(with_fee) && in_i128(numerator) && in_i128(scaled_in) && in_i128(denominator)
    &&& div_panics(numerator, denominator)
}

/// Computes the output amount of an exact-input swap with the constant-product formula.
pub fn get_amount_out(amount_in: i128, reserve_in: i128, reserve_out: i128, fee_bps: u32) -> (r: Result<i128, RouterError>)
    requires
        !amount_out_panics(amount_in as int, reserve_in as int, reserve_out as int, fee_bps as int),
    ensures
        int_result(r) == amount_out_spec(amount_in as int, reserve_in as int, reserve_out as int, fee_bps as int),
{
    if amount_in <= 0 {
        return Err(RouterError::ZeroAmount);
    }
    if reserve_in <= 0 || reserve_out <= 0 {
        return Err(RouterError::InsufficientLiquidity);
    }
    let fee_factor: i128 = BPS - fee_bps as i128;
    let amount_in_with_fee = match amount_in.checked_mul(fee_factor) {
        Some(v) => v,
        None => return Err(RouterError::InsufficientLiquidity),
    };
    let numerator = match amount_in_with_fee.checked_mul(reserve_out) {
        Some(v) => v,
        None => return Err(RouterError::InsufficientLiquidity),
    };
    let scaled_in = match reserve_in.checked_mul(BPS) {
        Some(v) => v,
        None => return Err(RouterError::InsufficientLiquidity),
    };
    let denominator = match scaled_in.checked_add(amount_in_with_fee) {
        Some(v) => v,
        None => return Err(RouterError::InsufficientLiquidity),
    };
    Ok(div_i128(numerator, denominator))
}

/// Input needed for an exact-output swap:
/// `reserve_in * amount_out * 10000 / ((reserve_out - amount_out) * (10000 - fee)) + 1`,
/// with the error each guard or overflow gives.
pub open spec fn amount_in_spec(amount_out: int, reserve_in: int, reserve_out: int, fee_bps: int) -> Result<int, RouterError> {
    let product = reserve_in * amount_out;
    let numerator = product * 10000;
    let denominator = (reserve_out - amount_out) * (10000 - fee_bps);
    if amount_out <= 0 {
        Err(RouterError::ZeroAmount)
    } else if reserve_in <= 0 || reserve_out <= 0 || amount_out >= reserve_out {
        Err(RouterError::InsufficientLiquidity)
    } else if !in_i128(product) || !in_i128(numerator) || !in_i128(denominator) {
        Err(RouterError::InsufficientLiquidity)
    } else {
        Ok(trunc_div(numerator, denominator) + 1)
    }
}

/// The exact-output computation panics: it divides by zero (a fee of exactly
/// 10000 basis points) or its final `+ 1` overflows.
pub open spec fn amount_in_panics(amount_out: int, reserve_in: int, reserve_out: int, fee_bps: int) -> bool {
    let product = reserve_in * amount_out;
    let numerator = product * 10000;
    let denominator = (reserve_out - amount_out) * (10000 - fee_bps);
    &&& amount_out > 0
    &&& reserve_in > 0 && reserve_out > 0 && amount_out < reserve_out
    &&& in_i128(product) && in_i128(numerator) && in_i128(denominator)
    &&& (div_panics(numerator, denominator) || trunc_div(numerator, denominator) + 1 > i128::MAX)
}

/// Computes the input amount required for an exact-output swap.
pub fn get_amount_in(amount_out: i128, reserve_in: i128, reserve_out: i128, fee_bps: u32) -> (r: Result<i128, RouterError>)
    requires
        !amount_in_panics(amount_out as int, reserve_in as int, reserve_out as int, fee_bps as int),
    ensures
        int_result(r) == amount_in_spec(amount_out as int, reserve_in as int, reserve_out as int, fee_bps as int),
{
    if amount_out <= 0 {
        return Err(RouterError::ZeroAmount);
    }
    if reserve_in <= 0 || reserve_out <= 0 || amount_out >= reserve_out {
        return Err(RouterError::InsufficientLiquidity);
    }
    let product = match reserve_in.checked_mul(amount_out) {
        Some(v) => v,
        None => return Err(RouterError::InsufficientLiquidity),
    };
    let numerator = match product.checked_mul(BPS) {
        Some(v) => v,
        None => return Err(RouterError::InsufficientLiquidity),
    };
    let fee_factor: i128 = BPS - fee_bps as i128;
    let denominator = match (reserve_out - amount_out).checked_mul(fee_factor) {
        Some(v) => v,
        None => return Err(RouterError::InsufficientLiquidity),
    };
    let q = div_i128(numerator, denominator);
    Ok(q + 1)
}

/// Tells whether `get_amount_out` would panic on these arguments.
pub fn amount_out_would_panic(amount_in: i128, reserve_in: i128, reserve_out: i128, fee_bps: u32) -> (r: bool)
    ensures
        r == amount_out_panics(amount_in as int, reserve_in as int, reserve_out as int, fee_bps as int),
{
    if amount_in <= 0 || reserve_in <= 0 || reserve_out <= 0 {
        return false;
    }
    let with_fee = match amount_in.checked_mul(BPS - fee_bps as i128) {
        Some(v) => v,
        None => return false,
    };
    let numerator = match with_fee.checked_mul(reserve_out) {
        Some(v) => v,
        None => return false,
    };
    let scaled_in = match reserve_in.checked_mul(BPS) {
        Some(v) => v,
        None => return false,
    };
    let denominator = match scaled_in.checked_add(with_fee) {
        Some(v) => v,
        None => return false,
    };
    denominator == 0 || (numerator == i128::MIN && denominator == -1)
}

/// Tells whether `get_amount_in` would panic on these arguments.
pub fn amount_in_would_panic(amount_out: i128, reserve_in: i128, reserve_out: i128, fee_bps: u32) -> (r: bool)
    ensures
        r == amount_in_panics(amount_out as int, reserve_in as int, reserve_out as int, fee_bps as int),
{
    if amount_out <= 0 || reserve_in <= 0 || reserve_out <= 0 || amount_out >= reserve_out {
        return false;
    }
    let product = match reserve_in.checked_mul(amount_out) {
        Some(v) => v,
        None => return false,
    };
    let numerator = match product.checked_mul(BPS) {
        Some(v) => v,
        None => return false,
    };
    let denominator = match (reserve_out - amount_out).checked_mul(BPS - fee_bps as i128) {
        Some(v) => v,
        None => return false,
    };
    if denominator == 0 || (numerator == i128::MIN && denominator == -1) {
        return true;
    }
    div_i128(numerator, denominator) == i128::MAX
}

/// Tells whether `compute_optimal_amounts` would panic on these arguments.
pub fn optimal_amounts_would_panic(amount_a_desired: i128, amount_b_desired: i128, reserve_a: i128, reserve_b: i128) -> (r: bool)
    ensures
        r == optimal_amounts_panics(amount_a_desired as int, amount_b_desired as int, reserve_a as int, reserve_b as int),
{
    if reserve_a == 0 && reserve_b == 0 {
        return false;
    }
    let b_product = match amount_a_desired.checked_mul(reserve_b) {
        Some(v) => v,
        None => return false,
    };
    if reserve_a == 0 || (b_product == i128::MIN && reserve_a == -1) {
        return true;
    }
    let amount_b_optimal = div_i128(b_product, reserve_a);
    if amount_b_optimal <= amount_b_desired {
        return false;
    }
    let a_product = match amount_b_desired.checked_mul(reserve_a) {
        Some(v) => v,
        None => return false,
    };
    reserve_b == 0 || (a_product == i128::MIN && reserve_b == -1)
}

/// The amount of the other asset equivalent to `amount_a` at the pool ratio:
/// `amount_a * reserve_b / reserve_a`.
pub open spec fn quote_spec(amount_a: int, reserve_a: int, reserve_b: int) -> Result<int, RouterError> {
    if amount_a <= 0 {
        Err(RouterError::ZeroAmount)
    } else if reserve_a <= 0 || reserve_b <= 0 {
        Err(RouterError::InsufficientLiquidity)
    } else if !in_i128(amount_a * reserve_b) {
        Err(RouterError::InsufficientLiquidity)
    } else {
        Ok((amount_a * reserve_b) / reserve_a)
    }
}

/// Given some amount of an asset and the pair reserves, returns the
/// equivalent amount of the other asset.
pub fn quote(amount_a: i128, reserve_a: i128, reserve_b: i128) -> (r: Result<i128, RouterError>)
    ensures
        int_result(r) == quote_spec(amount_a as int, reserve_a as int, reserve_b as int),
{
    if amount_a <= 0 {
        return Err(RouterError::ZeroAmount);
    }
    if reserve_a <= 0 || reserve_b <= 0 {
        return Err(RouterError::InsufficientLiquidity);
    }
    let product = match amount_a.checked_mul(reserve_b) {
        Some(v) => v,
        None => return Err(RouterError::InsufficientLiquidity),
    };
    proof {
        vstd::arithmetic::mul::lemma_mul_strictly_positive(amount_a as int, reserve_b as int);
        vstd::arithmetic::div_mod::lemma_div_is_ordered_by_denominator(product as int, 1, reserve_a as int);
        vstd::arithmetic::div_mod::lemma_div_pos_is_pos(product as int, reserve_a as int);
    }
    Ok(product / reserve_a)
}

/// The deposit that keeps the pool ratio, given the desired and minimum amounts.
pub open spec fn optimal_amounts_spec(
    amount_a_desired: int,
    amount_b_desired: int,
    amount_a_min: int,
    amount_b_min: int,
    reserve_a: int,
    reserve_b: int,
) -> Result<(int, int), RouterError> {
    let b_product = amount_a_desired * reserve_b;
    let amount_b_optimal = trunc_div(b_product, reserve_a);
    let a_product = amount_b_desired * reserve_a;
    let amount_a_optimal = trunc_div(a_product, reserve_b);
    if reserve_a == 0 && reserve_b == 0 {
        Ok((amount_a_desired, amount_b_desired))
    } else if !in_i128(b_product) {
        Err(RouterError::InsufficientLiquidity)
    } else if amount_b_optimal <= amount_b_desired {
        if amount_b_optimal < amount_b_min {
            Err(RouterError::SlippageExceeded)
        } else {
            Ok((amount_a_desired, amount_b_optimal))
        }
    } else if !in_i128(a_product) {
        Err(RouterError::InsufficientLiquidity)
    } else if amount_a_optimal < amount_a_min {
        Err(RouterError::SlippageExceeded)
    } else {
        Ok((amount_a_optimal, amount_b_desired))
    }
}

/// The optimal-deposit computation panics: it divides by a zero reserve or
/// divides `i128::MIN` by -1.
pub open spec fn optimal_amounts_panics(
    amount_a_desired: int,
    amount_b_desired: int,
    reserve_a: int,
    reserve_b: int,
) -> bool {
    let b_product = amount_a_desired * reserve_b;
    let amount_b_optimal = trunc_div(b_product, reserve_a);
    let a_product = amount_b_desired * reserve_a;
    &&& !(reserve_a == 0 && reserve_b == 0)
    &&& in_i128(b_product)
    &&& (div_panics(b_product, reserve_a) || (amount_b_optimal > amount_b_desired && in_i128(a_product)
        && div_panics(a_product, reserve_b)))
}

/// Computes the deposit amounts for adding liquidity.
pub fn compute_optimal_amounts(
    amount_a_desired: i128,
    amount_b_desired: i128,
    amount_a_min: i128,
    amount_b_min: i128,
    reserve_a: i128,
    reserve_b: i128,
) -> (r: Result<(i128, i128), RouterError>)
    requires
        !optimal_amounts_panics(amount_a_desired as int, amount_b_desired as int, reserve_a as int, reserve_b as int),
    ensures
        int_pair_result(r) == optimal_amounts_spec(amount_a_desired as int, amount_b_desired as int,
            amount_a_min as int, amount_b_min as int, reserve_a as int, reserve_b as int),
{
    if reserve_a == 0 && reserve_b == 0 {
        return Ok((amount_a_desired, amount_b_desired));
    }
    let b_product = match amount_a_desired.checked_mul(reserve_b) {
        Some(v) => v,
        None => return Err(RouterError::InsufficientLiquidity),
    };
    let amount_b_optimal = div_i128(b_product, reserve_a);
    if amount_b_optimal <= amount_b_desired {
        if amount_b_optimal < amount_b_min {
            return Err(RouterError::SlippageExceeded);
        }
        Ok((amount_a_desired, amount_b_optimal))
    } else {
        let a_product = match amount_b_desired.checked_mul(reserve_a) {
            Some(v) => v,
            None => return Err(RouterError::InsufficientLiquidity),
        };
        let amount_a_optimal = div_i128(a_product, reserve_b);
        if amount_a_optimal < amount_a_min {
            return Err(RouterError::SlippageExceeded);
        }
        Ok((amount_a_optimal, amount_b_desired))
    }
}

/// `q * d <= n` gives `q <= n / d` for a positive divisor.
proof fn lemma_below_quotient(q: int, n: int, d: int)
    requires
        d > 0,
        q * d <= n,
    ensures
        q <= n / d,
{
    vstd::arithmetic::div_mod::lemma_fundamental_div_mod(n, d);
    if q > n / d {
        assert(q * d >= (n / d + 1) * d) by (nonlinear_arith)
            requires q >= n / d + 1, d > 0;
        assert((n / d + 1) * d == d * (n / d) + d) by (nonlinear_arith);
    }
}

/// An exact-input swap with a fee of at most 100% never pays out the whole
/// reserve, and pays less than the pre-trade price:
/// `amount_out * reserve_in < amount_in * reserve_out`.
pub proof fn lemma_amount_out_bounded(amount_in: int, reserve_in: int, reserve_out: int, fee_bps: int)
    requires
        0 <= fee_bps <= 10000,
        amount_out_spec(amount_in, reserve_in, reserve_out, fee_bps) is Ok,
    ensures
        0 <= amount_out_spec(amount_in, reserve_in, reserve_out, fee_bps)->Ok_0 < reserve_out,
        amount_out_spec(amount_in, reserve_in, reserve_out, fee_bps)->Ok_0 * reserve_in < amount_in * reserve_out,
{
    let f = 10000 - fee_bps;
    let wf = amount_in * f;
    let num = wf * reserve_out;
    let den = reserve_in * 10000 + wf;
    let out = amount_out_spec(amount_in, reserve_in, reserve_out, fee_bps)->Ok_0;
    assert(wf >= 0) by (nonlinear_arith)
        requires amount_in > 0, f >= 0, wf == amount_in * f;
    assert(num >= 0) by (nonlinear_arith)
        requires wf >= 0, reserve_out > 0, num == wf * reserve_out;
    assert(den > wf);
    assert(out == num / den);
    vstd::arithmetic::div_mod::lemma_fundamental_div_mod(num, den);
    vstd::arithmetic::div_mod::lemma_div_pos_is_pos(num, den);
    assert(out * den <= num) by (nonlinear_arith)
        requires num == den * out + num % den, num % den >= 0;
    assert(num < den * reserve_out) by (nonlinear_arith)
        requires num == wf * reserve_out, den > wf, reserve_out > 0;
    if out >= reserve_out {
        assert(out * den >= reserve_out * den) by (nonlinear_arith)
            requires out >= reserve_out, den > 0;
    }
    // out * (reserve_in * 10000 + wf) <= wf * reserve_out
    assert(out * reserve_in * 10000 + out * wf <= wf * reserve_out) by (nonlinear_arith)
        requires out * den <= num, den == reserve_in * 10000 + wf, num == wf * reserve_out;
    assert(wf * reserve_out <= amount_in * 10000 * reserve_out) by (nonlinear_arith)
        requires wf == amount_in * f, f <= 10000, amount_in > 0, reserve_out > 0;
    if out > 0 {
        if f > 0 {
            assert(out * wf > 0) by (nonlinear_arith)
                requires out > 0, wf == amount_in * f, amount_in > 0, f > 0;
        } else {
            assert(wf == 0) by (nonlinear_arith)
                requires wf == amount_in * f, f == 0;
            assert(num == 0) by (nonlinear_arith)
                requires num == wf * reserve_out, wf == 0;
        }
    }
    assert(amount_in * reserve_out > 0) by (nonlinear_arith)
        requires amount_in > 0, reserve_out > 0;
    assert(out * reserve_in * 10000 < amount_in * 10000 * reserve_out) by (nonlinear_arith)
        requires
            out * reserve_in * 10000 + out * wf <= wf * reserve_out,
            wf * reserve_out <= amount_in * 10000 * reserve_out,
            out > 0 ==> out * wf > 0,
            out == 0 ==> amount_in * reserve_out > 0,
            out >= 0;
    assert(out * reserve_in < amount_in * reserve_out) by (nonlinear_arith)
        requires out * reserve_in * 10000 < amount_in * 10000 * reserve_out;
}

/// The input computed for an exact-output swap buys at least the requested
/// output: swapping `get_amount_in(out)` back through `get_amount_out` on the
/// same reserves and fee yields at least `out`.
pub proof fn lemma_exact_output_is_covered(amount_out: int, reserve_in: int, reserve_out: int, fee_bps: int)
    requires
        0 <= fee_bps < 10000,
        amount_in_spec(amount_out, reserve_in, reserve_out, fee_bps) is Ok,
    ensures
        ({
            let amount_in = amount_in_spec(amount_out, reserve_in, reserve_out, fee_bps)->Ok_0;
            amount_out_spec(amount_in, reserve_in, reserve_out, fee_bps) matches Ok(got) ==> got >= amount_out
        }),
{
    let amount_in = amount_in_spec(amount_out, reserve_in, reserve_out, fee_bps)->Ok_0;
    let f = 10000 - fee_bps;
    let n = reserve_in * amount_out * 10000;
    let d = (reserve_out - amount_out) * f;
    assert(d > 0) by (nonlinear_arith)
        requires reserve_out - amount_out > 0, f > 0, d == (reserve_out - amount_out) * f;
    assert(n >= 0) by (nonlinear_arith)
        requires reserve_in > 0, amount_out > 0, n == reserve_in * amount_out * 10000;
    assert(amount_in == n / d + 1);
    vstd::arithmetic::div_mod::lemma_fundamental_div_mod(n, d);
    // amount_in * d > n
    assert(amount_in * d > n) by (nonlinear_arith)
        requires amount_in == n / d + 1, n == d * (n / d) + n % d, n % d < d, d > 0;
    let wf = amount_in * f;
    let num = wf * reserve_out;
    let den = reserve_in * 10000 + wf;
    assert(amount_out * den <= num) by (nonlinear_arith)
        requires
            amount_in * d > n,
            d == (reserve_out - amount_out) * f,
            n == reserve_in * amount_out * 10000,
            wf == amount_in * f,
            num == wf * reserve_out,
            den == reserve_in * 10000 + wf;
    if amount_out_spec(amount_in, reserve_in, reserve_out, fee_bps) is Ok {
        assert(amount_in > 0);
        assert(wf >= 0) by (nonlinear_arith)
            requires amount_in > 0, f > 0, wf == amount_in * f;
        assert(num >= 0) by (nonlinear_arith)
            requires wf >= 0, reserve_out > 0, num == wf * reserve_out;
        lemma_below_quotient(amount_out, num, den);
    }
}

/// A quote rounds down: `quote * reserve_a <= amount_a * reserve_b < (quote + 1) * reserve_a`.
pub proof fn lemma_quote_rounds_down(amount_a: int, reserve_a: int, reserve_b: int)
    requires
        quote_spec(amount_a, reserve_a, reserve_b) is Ok,
    ensures
        ({
            let b = quote_spec(amount_a, reserve_a, reserve_b)->Ok_0;
            b * reserve_a <= amount_a * reserve_b < (b + 1) * reserve_a
        }),
{
    let p = amount_a * reserve_b;
    vstd::arithmetic::div_mod::lemma_fundamental_div_mod(p, reserve_a);
    let b = p / reserve_a;
    assert(b * reserve_a <= p < (b + 1) * reserve_a) by (nonlinear_arith)
        requires p == reserve_a * b + p % reserve_a, 0 <= p % reserve_a < reserve_a;
}

/// Floor division respects the order of fractions: `n1/d1 <= n2/d2` when
/// `n1 * d2 <= n2 * d1`.
proof fn lemma_floor_div_cross(n1: int, d1: int, n2: int, d2: int)
    requires
        n1 >= 0,
        n2 >= 0,
        d1 > 0,
        d2 > 0,
        n1 * d2 <= n2 * d1,
    ensures
        n1 / d1 <= n2 / d2,
{
    let q = n1 / d1;
    let q2 = n2 / d2;
    vstd::arithmetic::div_mod::lemma_fundamental_div_mod(n1, d1);
    vstd::arithmetic::div_mod::lemma_fundamental_div_mod(n2, d2);
    vstd::arithmetic::div_mod::lemma_div_pos_is_pos(n1, d1);
    assert(q * d1 <= n1) by (nonlinear_arith)
        requires n1 == d1 * q + n1 % d1, n1 % d1 >= 0;
    assert(q * d1 * d2 <= n1 * d2) by (nonlinear_arith)
        requires q * d1 <= n1, d2 > 0;
    assert(q * d2 <= n2) by (nonlinear_arith)
        requires q * d1 * d2 <= n1 * d2, n1 * d2 <= n2 * d1, d1 > 0;
    if q > q2 {
        assert(q * d2 >= (q2 + 1) * d2) by (nonlinear_arith)
            requires q >= q2 + 1, d2 > 0;
        assert(false) by (nonlinear_arith)
            requires q * d2 >= (q2 + 1) * d2, q * d2 <= n2, n2 == d2 * q2 + n2 % d2, n2 % d2 < d2;
    }
}

/// The exact-input output grows with the input: with the same pool and a
/// fee of at most 100%, putting in more never gives out less.
pub proof fn lemma_amount_out_monotone_in_input(small: int, large: int, reserve_in: int, reserve_out: int, fee_bps: int)
    requires
        0 <= fee_bps <= 10000,
        small <= large,
        amount_out_spec(small, reserve_in, reserve_out, fee_bps) is Ok,
        amount_out_spec(large, reserve_in, reserve_out, fee_bps) is Ok,
    ensures
        amount_out_spec(small, reserve_in, reserve_out, fee_bps)->Ok_0
            <= amount_out_spec(large, reserve_in, reserve_out, fee_bps)->Ok_0,
{
    let f = 10000 - fee_bps;
    let w1 = small * f;
    let w2 = large * f;
    let t = reserve_in * 10000;
    let n1 = w1 * reserve_out;
    let n2 = w2 * reserve_out;
    assert(0 <= w1 <= w2) by (nonlinear_arith)
        requires w1 == small * f, w2 == large * f, 0 < small <= large, f >= 0;
    assert(t > 0) by (nonlinear_arith)
        requires t == reserve_in * 10000, reserve_in > 0;
    assert(0 <= n1 <= n2) by (nonlinear_arith)
        requires n1 == w1 * reserve_out, n2 == w2 * reserve_out, 0 <= w1 <= w2, reserve_out > 0;
    assert(n1 * (t + w2) <= n2 * (t + w1)) by (nonlinear_arith)
        requires n1 == w1 * reserve_out, n2 == w2 * reserve_out, 0 <= w1 <= w2, reserve_out > 0, t > 0;
    lemma_floor_div_cross(n1, t + w1, n2, t + w2);
}

/// Deeper pools give more: scaling both reserves by `k >= 1` never lowers
/// the exact-input output (fee of at most 100%).
pub proof fn lemma_amount_out_grows_with_depth(amount_in: int, reserve_in: int, reserve_out: int, fee_bps: int, k: int)
    requires
        0 <= fee_bps <= 10000,
        k >= 1,
        amount_out_spec(amount_in, reserve_in, reserve_out, fee_bps) is Ok,
        amount_out_spec(amount_in, k * reserve_in, k * reserve_out, fee_bps) is Ok,
    ensures
        amount_out_spec(amount_in, reserve_in, reserve_out, fee_bps)->Ok_0
            <= amount_out_spec(amount_in, k * reserve_in, k * reserve_out, fee_bps)->Ok_0,
{
    let f = 10000 - fee_bps;
    let w = amount_in * f;
    let t1 = reserve_in * 10000;
    let t2 = (k * reserve_in) * 10000;
    let n1 = w * reserve_out;
    let n2 = w * (k * reserve_out);
    assert(w >= 0) by (nonlinear_arith)
        requires w == amount_in * f, amount_in > 0, f >= 0;
    assert(t1 > 0) by (nonlinear_arith)
        requires t1 == reserve_in * 10000, reserve_in > 0;
    assert(t2 == k * t1) by (nonlinear_arith)
        requires t2 == (k * reserve_in) * 10000, t1 == reserve_in * 10000;
    assert(n2 == k * n1) by (nonlinear_arith)
        requires n1 == w * reserve_out, n2 == w * (k * reserve_out);
    assert(n1 >= 0) by (nonlinear_arith)
        requires n1 == w * reserve_out, w >= 0, reserve_out > 0;
    assert(n2 >= 0) by (nonlinear_arith)
        requires n2 == k * n1, n1 >= 0, k >= 1;
    assert(t2 > 0) by (nonlinear_arith)
        requires t2 == k * t1, t1 > 0, k >= 1;
    // n2 * (t1 + w) - n1 * (t2 + w) = (k - 1) * n1 * w >= 0
    assert(n1 * (t2 + w) <= n2 * (t1 + w)) by (nonlinear_arith)
        requires t2 == k * t1, n2 == k * n1, n1 >= 0, w >= 0, k >= 1;
    lemma_floor_div_cross(n1, t1 + w, n2, t2 + w);
}

/// Quoting an amount across a pool and the result back never gives more
/// than was put in: both conversions round down.
pub proof fn lemma_quote_back_never_more(amount_a: int, reserve_a: int, reserve_b: int)
    requires
        quote_spec(amount_a, reserve_a, reserve_b) is Ok,
        quote_spec(quote_spec(amount_a, reserve_a, reserve_b)->Ok_0, reserve_b, reserve_a) is Ok,
    ensures
        quote_spec(quote_spec(amount_a, reserve_a, reserve_b)->Ok_0, reserve_b, reserve_a)->Ok_0 <= amount_a,
{
    let b = quote_spec(amount_a, reserve_a, reserve_b)->Ok_0;
    lemma_quote_rounds_down(amount_a, reserve_a, reserve_b);
    assert(b * reserve_a <= amount_a * reserve_b);
    vstd::arithmetic::div_mod::lemma_div_is_ordered(b * reserve_a, amount_a * reserve_b, reserve_b);
    vstd::arithmetic::div_mod::lemma_div_multiples_vanish(amount_a, reserve_b);
    assert(amount_a * reserve_b == reserve_b * amount_a) by (nonlinear_arith);
}

/// With positive reserves and desired amounts, a successful deposit never
/// exceeds the desired amounts: one side is deposited in full and the other,
/// scaled to the pool ratio, is at least its minimum.
pub proof fn lemma_optimal_amounts_within_bounds(
    amount_a_desired: int,
    amount_b_desired: int,
    amount_a_min: int,
    amount_b_min: int,
    reserve_a: int,
    reserve_b: int,
)
    requires
        reserve_a > 0,
        reserve_b > 0,
        amount_a_desired > 0,
        amount_b_desired > 0,
        optimal_amounts_spec(amount_a_desired, amount_b_desired, amount_a_min, amount_b_min, reserve_a, reserve_b) is Ok,
    ensures
        ({
            let (a, b) = optimal_amounts_spec(amount_a_desired, amount_b_desired, amount_a_min,
                amount_b_min, reserve_a, reserve_b)->Ok_0;
            &&& a <= amount_a_desired
            &&& b <= amount_b_desired
            &&& (a == amount_a_desired && amount_b_min <= b) || (b == amount_b_desired && amount_a_min <= a)
        }),
{
    let bp = amount_a_desired * reserve_b;
    let ap = amount_b_desired * reserve_a;
    assert(bp > 0) by (nonlinear_arith)
        requires amount_a_desired > 0, reserve_b > 0, bp == amount_a_desired * reserve_b;
    assert(ap > 0) by (nonlinear_arith)
        requires amount_b_desired > 0, reserve_a > 0, ap == amount_b_desired * reserve_a;
    let b_opt = bp / reserve_a;
    assert(trunc_div(bp, reserve_a) == b_opt);
    assert(trunc_div(ap, reserve_b) == ap / reserve_b);
    vstd::arithmetic::div_mod::lemma_div_pos_is_pos(ap, reserve_b);
    if b_opt > amount_b_desired {
        vstd::arithmetic::div_mod::lemma_fundamental_div_mod(bp, reserve_a);
        vstd::arithmetic::div_mod::lemma_fundamental_div_mod(ap, reserve_b);
        // bp >= reserve_a * b_opt > reserve_a * amount_b_desired = ap
        assert(bp > ap) by (nonlinear_arith)
            requires
                bp == reserve_a * b_opt + bp % reserve_a,
                bp % reserve_a >= 0,
                b_opt >= amount_b_desired + 1,
                ap == amount_b_desired * reserve_a,
                reserve_a > 0;
        let a_opt = ap / reserve_b;
        assert(a_opt <= amount_a_desired) by (nonlinear_arith)
            requires
                ap == reserve_b * a_opt + ap % reserve_b,
                ap % reserve_b >= 0,
                bp > ap,
                bp == amount_a_desired * reserve_b,
                reserve_b > 0;
    }
}

/// What a pair reports of itself to the router: its reserves in the pair's own
/// token order and its current fee.
#[derive(Clone, Copy, Debug, PartialEq, Eq, Structural)]
pub struct PoolQuote {
    pub reserve_a: i128,
    pub reserve_b: i128,
    pub fee_bps: u32,
}

/// `(reserve_in, reserve_out, fee_bps)` for a swap of `token_in` into
/// `token_out` through a pool: the pool's reserves are in canonical token order.
pub open spec fn oriented_spec(pool: PoolQuote, token_in: Seq<u8>, token_out: Seq<u8>) -> Result<(int, int, int), RouterError> {
    match sorted_pair(token_in, token_out) {
        Err(e) => Err(e),
        Ok((first, _)) => if token_in == first {
            Ok((pool.reserve_a as int, pool.reserve_b as int, pool.fee_bps as int))
        } else {
            Ok((pool.reserve_b as int, pool.reserve_a as int, pool.fee_bps as int))
        },
    }
}

/// Returns `(reserve_in, reserve_out, fee_bps)` for a swap of `token_in` into
/// `token_out` through the given pool, the direction determined by sorting the tokens.
pub fn get_pair_reserves_and_fee(pool: PoolQuote, token_in: &Vec<u8>, token_out: &Vec<u8>) -> (r: Result<(i128, i128, u32), RouterError>)
    ensures
        match r {
            Ok((rin, rout, fee)) => oriented_spec(pool, token_in@, token_out@) == Ok::<(int, int, int), RouterError>(
                (rin as int, rout as int, fee as int)),
            Err(e) => oriented_spec(pool, token_in@, token_out@) == Err::<(int, int, int), RouterError>(e),
        },
{
    if bytes_equal(token_in, token_out) {
        return Err(RouterError::IdenticalTokens);
    }
    if bytes_less(token_in, token_out) {
        Ok((pool.reserve_a, pool.reserve_b, pool.fee_bps))
    } else {
        Ok((pool.reserve_b, pool.reserve_a, pool.fee_bps))
    }
}

/// The outputs of the hops of `path` from hop `i` on, entering hop `i` with
/// `amount`; `pools[j]` is the pool between `path[j]` and `path[j + 1]`, or
/// `None` where no pair exists.
pub open spec fn hops_out_spec(path: Seq<Vec<u8>>, pools: Seq<Option<PoolQuote>>, i: int, amount: int) -> Result<Seq<int>, RouterError>
    decreases path.len() - i,
{
    if i < 0 || i + 1 >= path.len() {
        Ok(Seq::empty())
    } else {
        match pools[i] {
            None => Err(RouterError::PairNotFound),
            Some(pool) => match oriented_spec(pool, path[i]@, path[i + 1]@) {
                Err(e) => Err(e),
                Ok((rin, rout, fee)) => match amount_out_spec(amount, rin, rout, fee) {
                    Err(e) => Err(e),
                    Ok(out) => match hops_out_spec(path, pools, i + 1, out) {
                        Err(e) => Err(e),
                        Ok(rest) => Ok(seq![out] + rest),
                    },
                },
            },
        }
    }
}

/// Some hop of `path` from hop `i` on reaches a panicking division.
pub open spec fn hops_out_panic(path: Seq<Vec<u8>>, pools: Seq<Option<PoolQuote>>, i: int, amount: int) -> bool
    decreases path.len() - i,
{
    if i < 0 || i + 1 >= path.len() {
        false
    } else {
        match pools[i] {
            None => false,
            Some(pool) => match oriented_spec(pool, path[i]@, path[i + 1]@) {
                Err(_) => false,
                Ok((rin, rout, fee)) => amount_out_panics(amount, rin, rout, fee) || match amount_out_spec(amount, rin, rout, fee) {
                    Err(_) => false,
                    Ok(out) => hops_out_panic(path, pools, i + 1, out),
                },
            },
        }
    }
}

/// The output amounts along a multi-hop path.
pub open spec fn path_amounts_out_spec(path: Seq<Vec<u8>>, pools: Seq<Option<PoolQuote>>, amount_in: int) -> Result<Seq<int>, RouterError> {
    if path.len() < 2 {
        Err(RouterError::InvalidPath)
    } else {
        hops_out_spec(path, pools, 0, amount_in)
    }
}

/// A `Result` over a vector of machine integers seen as one over a sequence of integers.
pub open spec fn int_seq_result<E>(r: Result<Vec<i128>, E>) -> Result<Seq<int>, E> {
    match r {
        Ok(v) => Ok(v@.map_values(|x: i128| x as int)),
        Err(e) => Err(e),
    }
}

/// Computes the output amount of every hop along a multi-hop path:
/// `amounts[i]` is the output of swapping `path[i]` into `path[i + 1]`
/// through `pools[i]`.
pub fn get_path_amounts_out(path: &Vec<Vec<u8>>, pools: &Vec<Option<PoolQuote>>, amount_in: i128) -> (r: Result<Vec<i128>, RouterError>)
    requires
        path.len() >= 2 ==> pools.len() + 1 == path.len(),
        !hops_out_panic(path@, pools@, 0, amount_in as int),
    ensures
        int_seq_result(r) == path_amounts_out_spec(path@, pools@, amount_in as int),
{
    if path.len() < 2 {
        return Err(RouterError::InvalidPath);
    }
    let mut amounts: Vec<i128> = Vec::new();
    let mut current = amount_in;
    let mut i: usize = 0;
    let ghost total = hops_out_spec(path@, pools@, 0, amount_in as int);
    assert(amounts@.map_values(|x: i128| x as int) =~= Seq::<int>::empty());
    while i + 1 < path.len()
        invariant
            path.len() >= 2,
            pools.len() + 1 == path.len(),
            0 <= i < path.len(),
            total == hops_out_spec(path@, pools@, 0, amount_in as int),
            !hops_out_panic(path@, pools@, i as int, current as int),
            total == match hops_out_spec(path@, pools@, i as int, current as int) {
                Ok(rest) => Ok(amounts@.map_values(|x: i128| x as int) + rest),
                Err(e) => Err(e),
            },
        decreases path.len() - i,
    {
        let pool = match pools[i] {
            Some(p) => p,
            None => return Err(RouterError::PairNotFound),
        };
        let (rin, rout, fee) = match get_pair_reserves_and_fee(pool, &path[i], &path[i + 1]) {
            Ok(t) => t,
            Err(e) => return Err(e),
        };
        let out = match get_amount_out(current, rin, rout, fee) {
            Ok(o) => o,
            Err(e) => return Err(e),
        };
        let ghost before = amounts@.map_values(|x: i128| x as int);
        amounts.push(out);
        proof {
            assert(amounts@.map_values(|x: i128| x as int) =~= before + seq![out as int]);
            match hops_out_spec(path@, pools@, i + 1, out as int) {
                Ok(rest) => {
                    assert(before + seq![out as int] + rest =~= before + (seq![out as int] + rest));
                },
                Err(_) => {},
            }
        }
        current = out;
        i = i + 1;
    }
    assert(hops_out_spec(path@, pools@, i as int, current as int) == Ok::<Seq<int>, RouterError>(Seq::empty()));
    assert(amounts@.map_values(|x: i128| x as int) + Seq::<int>::empty() =~= amounts@.map_values(|x: i128| x as int));
    Ok(amounts)
}

} // verus!
