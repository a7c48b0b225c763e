//! The volatility-driven swap fee: an exponential moving average of price
//! moves, weighted by trade size, drives the fee between configured bounds.
use vstd::prelude::*;
use crate::arith::{in_i128, trunc_div, sat_add, sat_mul, div_i128, saturating_add_i128,
    saturating_mul_i128, lemma_trunc_div_monotone};
use crate::errors::PairError;

verus! {

/// Fixed-point scale of the accumulator and of `ema_alpha` (1e14).
pub const SCALE: i128 = 100_000_000_000_000;

/// `SCALE / 10_000`: accumulator units per basis point of fee per unit of ramp.
pub const SCALE_TO_BPS: i128 = 10_000_000_000;

/// The dynamic-fee state stored by a pair.
#[derive(Clone, Copy, Debug, PartialEq, Eq, Structural)]
pub struct FeeState {
    pub vol_accumulator: i128,
    pub ema_alpha: i128,
    pub baseline_fee_bps: u32,
    pub min_fee_bps: u32,
    pub max_fee_bps: u32,
    pub ramp_up_multiplier: u32,
    pub cooldown_divisor: u32,
    pub last_fee_update: u64,
    pub decay_threshold_blocks: u64,
}

/// `x` clamped to `[lo, hi]`.
pub open spec fn clamp(x: int, lo: int, hi: int) -> int {
    if x < lo {
        lo
    } else if x > hi {
        hi
    } else {
        x
    }
}

/// The fee in basis points for a fee state:
/// `clamp(baseline + vol_accumulator * ramp_up_multiplier / 1e10, min, max)`,
/// the product and the sum saturating.
pub open spec fn fee_bps_spec(fs: FeeState) -> int {
    if fs.vol_accumulator == 0 {
        clamp(fs.baseline_fee_bps as int, fs.min_fee_bps as int, fs.max_fee_bps as int)
    } else {
        let vol_bps = trunc_div(sat_mul(fs.vol_accumulator as int, fs.ramp_up_multiplier as int), SCALE_TO_BPS as int);
        clamp(sat_add(fs.baseline_fee_bps as int, vol_bps), fs.min_fee_bps as int, fs.max_fee_bps as int)
    }
}

/// The bounds of a fee state are ordered (clamping to them does not panic).
pub open spec fn fee_bounds_ordered(fs: FeeState) -> bool {
    fs.min_fee_bps <= fs.max_fee_bps
}

/// Computes the current fee in basis points from the EMA state.
pub fn compute_fee_bps(fee_state: &FeeState) -> (fee: u32)
    requires
        fee_bounds_ordered(*fee_state),
    ensures
        fee as int == fee_bps_spec(*fee_state),
        fee_state.min_fee_bps <= fee <= fee_state.max_fee_bps,
{
    if fee_state.vol_accumulator == 0 {
        let b = fee_state.baseline_fee_bps;
        return if b < fee_state.min_fee_bps {
            fee_state.min_fee_bps
        } else if b > fee_state.max_fee_bps {
            fee_state.max_fee_bps
        } else {
            b
        };
    }
    let product = saturating_mul_i128(fee_state.vol_accumulator, fee_state.ramp_up_multiplier as i128);
    let vol_bps = div_i128(product, SCALE_TO_BPS);
    let fee = saturating_add_i128(fee_state.baseline_fee_bps as i128, vol_bps);
    if fee < fee_state.min_fee_bps as i128 {
        fee_state.min_fee_bps
    } else if fee > fee_state.max_fee_bps as i128 {
        fee_state.max_fee_bps
    } else {
        fee as u32
    }
}

/// Size weight of a trade: `trade_size * SCALE / total_reserve`.
pub open spec fn trade_weight(trade_size: int, total_reserve: int) -> int {
    (trade_size * SCALE) / total_reserve
}

/// The size-weighted observation: `price_delta_abs * weight / SCALE`.
pub open spec fn observation(price_delta_abs: int, trade_size: int, total_reserve: int) -> int {
    (price_delta_abs * trade_weight(trade_size, total_reserve)) / (SCALE as int)
}

/// One EMA step before capping: `(alpha * observation + (SCALE - alpha) * old) / SCALE`.
pub open spec fn ema_step(alpha: int, old: int, obs: int) -> int {
    trunc_div(alpha * obs + (SCALE - alpha) * old, SCALE as int)
}

/// The accumulator value that yields `max_fee_bps`:
/// `(max_fee_bps - baseline_fee_bps) * 1e10 / ramp_up_multiplier`.
pub open spec fn max_volatility(fs: FeeState) -> int {
    trunc_div((fs.max_fee_bps - fs.baseline_fee_bps) * SCALE_TO_BPS, fs.ramp_up_multiplier as int)
}

/// The accumulator after capping (capping applies only with a positive ramp).
pub open spec fn capped(fs: FeeState, v: int) -> int {
    if fs.ramp_up_multiplier > 0 && v > max_volatility(fs) {
        max_volatility(fs)
    } else {
        v
    }
}

/// The new accumulator of an update, or the error it gives.
pub open spec fn volatility_update(fs: FeeState, price_delta_abs: int, trade_size: int, total_reserve: int) -> Result<int, PairError> {
    let alpha = fs.ema_alpha as int;
    let scaled_size = trade_size * SCALE;
    let weight = trade_weight(trade_size, total_reserve);
    let weighted_delta = price_delta_abs * weight;
    let obs = observation(price_delta_abs, trade_size, total_reserve);
    let alpha_term = alpha * obs;
    let prev_term = (SCALE - alpha) * fs.vol_accumulator;
    if price_delta_abs < 0 || trade_size <= 0 || total_reserve <= 0 {
        Err(PairError::InvalidInput)
    } else if alpha < 0 || alpha > SCALE {
        Err(PairError::InvalidEmaAlpha)
    } else if !in_i128(scaled_size) || !in_i128(weighted_delta) || !in_i128(alpha_term)
        || !in_i128(prev_term) || !in_i128(alpha_term + prev_term) {
        Err(PairError::Overflow)
    } else {
        Ok(capped(fs, ema_step(alpha, fs.vol_accumulator as int, obs)))
    }
}

/// Updates the EMA volatility accumulator with a new price observation,
/// weighted by trade size, and stamps the update time. On error the state is
/// left as it was.
pub fn update_volatility(
    fee_state: &mut FeeState,
    price_delta_abs: i128,
    trade_size: i128,
    total_reserve: i128,
    timestamp: u64,
) -> (r: Result<(), PairError>)
    ensures
        match r {
            Ok(()) => {
                &&& volatility_update(*old(fee_state), price_delta_abs as int, trade_size as int, total_reserve as int)
                    == Ok::<int, PairError>(final(fee_state).vol_accumulator as int)
                &&& *final(fee_state) == FeeState {
                    vol_accumulator: final(fee_state).vol_accumulator,
                    last_fee_update: timestamp,
                    ..*old(fee_state)
                }
            },
            Err(e) => {
                &&& volatility_update(*old(fee_state), price_delta_abs as int, trade_size as int, total_reserve as int)
                    == Err::<int, PairError>(e)
                &&& *final(fee_state) == *old(fee_state)
            },
        },
{
    if price_delta_abs < 0 || trade_size <= 0 || total_reserve <= 0 {
        return Err(PairError::InvalidInput);
    }
    if fee_state.ema_alpha < 0 || fee_state.ema_alpha > SCALE {
        return Err(PairError::InvalidEmaAlpha);
    }
    let scaled_size = match trade_size.checked_mul(SCALE) {
        Some(v) => v,
        None => return Err(PairError::Overflow),
    };
    let weight = scaled_size / total_reserve;
    proof {
        vstd::arithmetic::div_mod::lemma_div_pos_is_pos(scaled_size as int, total_reserve as int);
        vstd::arithmetic::div_mod::lemma_div_is_ordered_by_denominator(scaled_size as int, 1, total_reserve as int);
    }
    let weighted_delta = match price_delta_abs.checked_mul(weight) {
        Some(v) => v,
        None => return Err(PairError::Overflow),
    };
    proof {
        vstd::arithmetic::mul::lemma_mul_nonnegative(price_delta_abs as int, weight as int);
        vstd::arithmetic::div_mod::lemma_div_pos_is_pos(weighted_delta as int, SCALE as int);
        vstd::arithmetic::div_mod::lemma_div_is_ordered_by_denominator(weighted_delta as int, 1, SCALE as int);
    }
    let obs = weighted_delta / SCALE;
    let alpha_term = match fee_state.ema_alpha.checked_mul(obs) {
        Some(v) => v,
        None => return Err(PairError::Overflow),
    };
    let complement = SCALE - fee_state.ema_alpha;
    let prev_term = match complement.checked_mul(fee_state.vol_accumulator) {
        Some(v) => v,
        None => return Err(PairError::Overflow),
    };
    let sum = match alpha_term.checked_add(prev_term) {
        Some(v) => v,
        None => return Err(PairError::Overflow),
    };
    let mut acc = div_i128(sum, SCALE);
    if fee_state.ramp_up_multiplier > 0 {
        let headroom = fee_state.max_fee_bps as i128 - fee_state.baseline_fee_bps as i128;
        assert(headroom * SCALE_TO_BPS <= 0x1_0000_0000 * SCALE_TO_BPS) by (nonlinear_arith)
            requires headroom <= 0x1_0000_0000;
        assert(headroom * SCALE_TO_BPS >= -0x1_0000_0000 * SCALE_TO_BPS) by (nonlinear_arith)
            requires headroom >= -0x1_0000_0000;
        let max_vol = div_i128(headroom * SCALE_TO_BPS, fee_state.ramp_up_multiplier as i128);
        if acc > max_vol {
            acc = max_vol;
        }
    }
    fee_state.vol_accumulator = acc;
    fee_state.last_fee_update = timestamp;
    Ok(())
}

/// The moving average is idle past its decay threshold at ledger `current_ledger`:
/// `current_ledger > last_fee_update + decay_threshold_blocks`.
pub open spec fn ema_stale_spec(fs: FeeState, current_ledger: int) -> bool {
    current_ledger > fs.last_fee_update + fs.decay_threshold_blocks
}

/// Tests whether the pool has been idle long enough for its volatility to decay.
pub fn ema_is_stale(fee_state: &FeeState, current_ledger: u64) -> (r: bool)
    requires
        fee_state.last_fee_update + fee_state.decay_threshold_blocks <= u64::MAX,
    ensures
        r == ema_stale_spec(*fee_state, current_ledger as int),
{
    current_ledger > fee_state.last_fee_update + fee_state.decay_threshold_blocks
}

/// An accepted update yields a value that fits the `i128` accumulator.
pub proof fn lemma_volatility_update_in_range(fs: FeeState, price_delta_abs: int, trade_size: int, total_reserve: int)
    requires
        volatility_update(fs, price_delta_abs, trade_size, total_reserve) is Ok,
    ensures
        in_i128(volatility_update(fs, price_delta_abs, trade_size, total_reserve)->Ok_0),
{
    let alpha = fs.ema_alpha as int;
    let obs = observation(price_delta_abs, trade_size, total_reserve);
    let sum = alpha * obs + (SCALE - alpha) * fs.vol_accumulator;
    crate::arith::lemma_trunc_div_in_range(sum, SCALE as int);
    let e = ema_step(alpha, fs.vol_accumulator as int, obs);
    if fs.ramp_up_multiplier > 0 && e > max_volatility(fs) {
        let h = fs.max_fee_bps - fs.baseline_fee_bps;
        let big = h * SCALE_TO_BPS;
        assert(-0x1_0000_0000 * SCALE_TO_BPS <= big <= 0x1_0000_0000 * SCALE_TO_BPS) by (nonlinear_arith)
            requires big == h * SCALE_TO_BPS, -0x1_0000_0000 <= h <= 0x1_0000_0000;
        crate::arith::lemma_trunc_div_in_range(big, fs.ramp_up_multiplier as int);
    }
}

/// A larger trade moves the accumulator at least as far as a smaller one
/// with the same price move: size weighting makes dust trades cheap to ignore.
pub proof fn lemma_larger_trade_moves_more(fs: FeeState, price_delta_abs: int, small: int, large: int, total_reserve: int)
    requires
        small <= large,
        volatility_update(fs, price_delta_abs, small, total_reserve) is Ok,
        volatility_update(fs, price_delta_abs, large, total_reserve) is Ok,
    ensures
        volatility_update(fs, price_delta_abs, small, total_reserve)->Ok_0
            <= volatility_update(fs, price_delta_abs, large, total_reserve)->Ok_0,
{
    let alpha = fs.ema_alpha as int;
    assert(small * SCALE <= large * SCALE) by (nonlinear_arith)
        requires small <= large;
    vstd::arithmetic::div_mod::lemma_div_is_ordered(small * SCALE, large * SCALE, total_reserve);
    let w1 = trade_weight(small, total_reserve);
    let w2 = trade_weight(large, total_reserve);
    assert(price_delta_abs * w1 <= price_delta_abs * w2) by (nonlinear_arith)
        requires 0 <= price_delta_abs, w1 <= w2;
    vstd::arithmetic::div_mod::lemma_div_is_ordered(price_delta_abs * w1, price_delta_abs * w2, SCALE as int);
    let o1 = observation(price_delta_abs, small, total_reserve);
    let o2 = observation(price_delta_abs, large, total_reserve);
    assert(alpha * o1 <= alpha * o2) by (nonlinear_arith)
        requires 0 <= alpha, o1 <= o2;
    lemma_trunc_div_monotone(
        alpha * o1 + (SCALE - alpha) * fs.vol_accumulator,
        alpha * o2 + (SCALE - alpha) * fs.vol_accumulator,
        SCALE as int,
    );
}

/// With a non-negative accumulator and observation, one EMA step lands
/// between the old accumulator and the observation.
pub proof fn lemma_ema_step_between(alpha: int, old: int, obs: int)
    requires
        0 <= alpha <= SCALE,
        0 <= old,
        0 <= obs,
    ensures
        old <= obs ==> old <= ema_step(alpha, old, obs) <= obs,
        obs <= old ==> obs <= ema_step(alpha, old, obs) <= old,
{
    let s = SCALE as int;
    let sum = alpha * obs + (s - alpha) * old;
    assert(sum == s * old + alpha * (obs - old)) by (nonlinear_arith)
        requires sum == alpha * obs + (s - alpha) * old;
    assert(sum == s * obs + (s - alpha) * (old - obs)) by (nonlinear_arith)
        requires sum == alpha * obs + (s - alpha) * old;
    assert(sum >= 0) by (nonlinear_arith)
        requires 0 <= alpha <= s, 0 <= old, 0 <= obs, sum == alpha * obs + (s - alpha) * old;
    vstd::arithmetic::div_mod::lemma_div_multiples_vanish(old, s);
    vstd::arithmetic::div_mod::lemma_div_multiples_vanish(obs, s);
    if old <= obs {
        assert(alpha * (obs - old) >= 0) by (nonlinear_arith)
            requires 0 <= alpha, old <= obs;
        assert((s - alpha) * (old - obs) <= 0) by (nonlinear_arith)
            requires alpha <= s, old <= obs;
        vstd::arithmetic::div_mod::lemma_div_is_ordered(s * old, sum, s);
        vstd::arithmetic::div_mod::lemma_div_is_ordered(sum, s * obs, s);
    } else {
        assert(alpha * (obs - old) <= 0) by (nonlinear_arith)
            requires 0 <= alpha, obs <= old;
        assert((s - alpha) * (old - obs) >= 0) by (nonlinear_arith)
            requires alpha <= s, obs <= old;
        vstd::arithmetic::div_mod::lemma_div_is_ordered(s * obs, sum, s);
        vstd::arithmetic::div_mod::lemma_div_is_ordered(sum, s * old, s);
    }
}

/// A trade that does not move the price never raises a non-negative
/// accumulator: the observation is zero and the average decays toward it.
pub proof fn lemma_zero_move_does_not_raise_volatility(fs: FeeState, trade_size: int, total_reserve: int)
    requires
        fs.vol_accumulator >= 0,
        volatility_update(fs, 0, trade_size, total_reserve) is Ok,
    ensures
        volatility_update(fs, 0, trade_size, total_reserve)->Ok_0 <= fs.vol_accumulator,
{
    let w = trade_weight(trade_size, total_reserve);
    assert(0 * w == 0);
    assert(observation(0, trade_size, total_reserve) == 0);
    lemma_ema_step_between(fs.ema_alpha as int, fs.vol_accumulator as int, 0);
}

/// With `alpha = 0` the observation has no weight: the accumulator is kept;
/// with `alpha = SCALE` the observation replaces it.
pub proof fn lemma_ema_step_extremes(old: int, obs: int)
    ensures
        ema_step(0, old, obs) == old,
        ema_step(SCALE as int, old, obs) == obs,
{
    let s = SCALE as int;
    assert(0 * obs + (s - 0) * old == s * old) by (nonlinear_arith);
    assert(s * obs + (s - s) * old == s * obs) by (nonlinear_arith);
    vstd::arithmetic::div_mod::lemma_div_multiples_vanish(old, s);
    vstd::arithmetic::div_mod::lemma_div_multiples_vanish(obs, s);
    vstd::arithmetic::div_mod::lemma_div_multiples_vanish(-old, s);
    vstd::arithmetic::div_mod::lemma_div_multiples_vanish(-obs, s);
    assert((s * old) * -1 == s * (-old)) by (nonlinear_arith);
    assert((s * obs) * -1 == s * (-obs)) by (nonlinear_arith);
    assert(s * old == 0 <==> old == 0) by (nonlinear_arith)
        requires s > 0;
    assert(s * obs == 0 <==> obs == 0) by (nonlinear_arith)
        requires s > 0;
    assert(s * old > 0 <==> old > 0) by (nonlinear_arith)
        requires s > 0;
    assert(s * obs > 0 <==> obs > 0) by (nonlinear_arith)
        requires s > 0;
}

/// A faster EMA (larger alpha) moves further toward an observation above the
/// accumulator.
pub proof fn lemma_larger_alpha_reacts_more(slow: int, fast: int, old: int, obs: int)
    requires
        0 <= slow <= fast <= SCALE,
        0 <= old <= obs,
    ensures
        ema_step(slow, old, obs) <= ema_step(fast, old, obs),
{
    let s = SCALE as int;
    assert(slow * obs + (s - slow) * old == s * old + slow * (obs - old)) by (nonlinear_arith);
    assert(fast * obs + (s - fast) * old == s * old + fast * (obs - old)) by (nonlinear_arith);
    assert(slow * (obs - old) <= fast * (obs - old)) by (nonlinear_arith)
        requires slow <= fast, old <= obs;
    lemma_trunc_div_monotone(slow * obs + (s - slow) * old, fast * obs + (s - fast) * old, s);
}

/// After capping, the volatility part of the fee never pushes the unclamped
/// fee above `max_fee_bps`, so the fee can fall back as volatility decays.
pub proof fn lemma_capped_fee_within_max(fs: FeeState, v: int)
    requires
        fs.ramp_up_multiplier > 0,
        fs.baseline_fee_bps <= fs.max_fee_bps,
    ensures
        fs.baseline_fee_bps + trunc_div(sat_mul(capped(fs, v), fs.ramp_up_multiplier as int), SCALE_TO_BPS as int)
            <= fs.max_fee_bps,
{
    let h = fs.max_fee_bps - fs.baseline_fee_bps;
    let r = fs.ramp_up_multiplier as int;
    let c = capped(fs, v);
    let big = h * SCALE_TO_BPS;
    assert(big >= 0) by (nonlinear_arith)
        requires h >= 0, big == h * SCALE_TO_BPS;
    vstd::arithmetic::div_mod::lemma_fundamental_div_mod(big, r);
    assert(max_volatility(fs) == big / r);
    assert(c <= big / r);
    assert(c * r <= (big / r) * r) by (nonlinear_arith)
        requires c <= big / r, r > 0;
    assert((big / r) * r <= big) by (nonlinear_arith)
        requires big == r * (big / r) + big % r, big % r >= 0;
    assert(big <= 0x1_0000_0000 * SCALE_TO_BPS) by (nonlinear_arith)
        requires big == h * SCALE_TO_BPS, h <= 0x1_0000_0000;
    assert(sat_mul(c, r) <= big);
    lemma_trunc_div_monotone(sat_mul(c, r), big, SCALE_TO_BPS as int);
    vstd::arithmetic::div_mod::lemma_div_multiples_vanish(h, SCALE_TO_BPS as int);
    assert(big == SCALE_TO_BPS * h) by (nonlinear_arith)
        requires big == h * SCALE_TO_BPS;
}

} // verus!
