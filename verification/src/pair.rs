//! The pair: a constant-product pool of two tokens. Each entry point is a
//! function from the stored state and what the caller observed of the token
//! ledgers (balances, LP supply, the ledger time) to the new state and the
//! amounts to move.
use vstd::prelude::*;
use crate::arith::{in_i128, trunc_div, div_panics, div_i128, sat_add, saturating_add_i128,
    floor_sqrt, is_floor_sqrt, sqrt};
use crate::address::{bytes_equal, copy_bytes};
use crate::dynamic_fee::{FeeState, fee_bps_spec, fee_bounds_ordered, compute_fee_bps, SCALE,
    volatility_update, update_volatility};
use crate::errors::PairError;
use crate::reentrancy::ReentrancyGuard;

verus! {

/// LP tokens locked forever by the first deposit.
pub const MINIMUM_LIQUIDITY: i128 = 1000;

/// The fee reported when a pair holds no fee state.
pub const DEFAULT_FEE_BPS: u32 = 30;

/// The state a pair stores about its tokens and reserves. Addresses are
/// their canonical byte encodings.
#[derive(Debug)]
pub struct PairStorage {
    pub factory: Vec<u8>,
    pub token_a: Vec<u8>,
    pub token_b: Vec<u8>,
    pub lp_token: Vec<u8>,
    pub reserve_a: i128,
    pub reserve_b: i128,
    pub block_timestamp_last: u64,
    pub price_a_cumulative: i128,
    pub price_b_cumulative: i128,
    pub k_last: i128,
}

/// Everything a pair keeps in storage.
#[derive(Debug)]
pub struct Pair {
    pub pair_state: Option<PairStorage>,
    pub fee_state: Option<FeeState>,
    pub reentrancy_guard: ReentrancyGuard,
}

/// The fee configuration a pair starts with.
pub open spec fn initial_fee_state() -> FeeState {
    FeeState {
        vol_accumulator: 0,
        ema_alpha: 10_000_000_000_000,
        baseline_fee_bps: 30,
        min_fee_bps: 10,
        max_fee_bps: 100,
        ramp_up_multiplier: 2,
        cooldown_divisor: 2,
        last_fee_update: 0,
        decay_threshold_blocks: 100,
    }
}

/// `s` with new reserves, `k_last` and timestamp, everything else kept.
pub open spec fn with_reserves(s: PairStorage, reserve_a: int, reserve_b: int, k_last: int, timestamp: u64) -> PairStorage {
    PairStorage {
        reserve_a: reserve_a as i128,
        reserve_b: reserve_b as i128,
        k_last: k_last as i128,
        block_timestamp_last: timestamp,
        ..s
    }
}

/// What a deposit mints.
#[derive(Clone, Copy, Debug, PartialEq, Eq, Structural)]
pub struct MintOutcome {
    /// LP tokens minted to the depositor.
    pub liquidity: i128,
    /// Token A deposited (balance above the reserve).
    pub amount_a: i128,
    /// Token B deposited.
    pub amount_b: i128,
    /// This is the first deposit: `MINIMUM_LIQUIDITY` is minted to the pair itself.
    pub locks_minimum: bool,
}

/// What a burn destroyed and paid out.
#[derive(Clone, Copy, Debug, PartialEq, Eq, Structural)]
pub struct BurnOutcome {
    /// The LP destroyed: what was sent to the pair.
    pub lp_burned: i128,
    pub amount_a: i128,
    pub amount_b: i128,
}

/// What a settled swap received and charged.
#[derive(Clone, Copy, Debug, PartialEq, Eq, Structural)]
pub struct SwapOutcome {
    pub amount_a_in: i128,
    pub amount_b_in: i128,
    pub fee_bps: u32,
}

/// Liquidity minted for a deposit of `amount_a` and `amount_b`: the geometric
/// mean less the locked minimum on the first deposit, else the smaller
/// pro-rata share of the supply; with the error each guard or overflow gives.
pub open spec fn liquidity_spec(s: PairStorage, balance_a: int, balance_b: int, total_supply: int) -> Result<int, PairError> {
    let amount_a = balance_a - s.reserve_a;
    let amount_b = balance_b - s.reserve_b;
    let la = amount_a * total_supply;
    let lb = amount_b * total_supply;
    if !in_i128(amount_a) || !in_i128(amount_b) {
        Err(PairError::InvalidInput)
    } else if total_supply == 0 {
        if !in_i128(amount_a * amount_b) {
            Err(PairError::Overflow)
        } else {
            Ok(floor_sqrt(amount_a * amount_b) - MINIMUM_LIQUIDITY)
        }
    } else if !in_i128(la) || div_panics(la, s.reserve_a as int) {
        Err(PairError::Overflow)
    } else if !in_i128(lb) || div_panics(lb, s.reserve_b as int) {
        Err(PairError::Overflow)
    } else if trunc_div(la, s.reserve_a as int) <= trunc_div(lb, s.reserve_b as int) {
        Ok(trunc_div(la, s.reserve_a as int))
    } else {
        Ok(trunc_div(lb, s.reserve_b as int))
    }
}

/// Outcome of a deposit: the liquidity minted, or the error.
pub open spec fn mint_spec(p: Pair, balance_a: int, balance_b: int, total_supply: int) -> Result<int, PairError> {
    match p.pair_state {
        None => Err(PairError::NotInitialized),
        Some(s) => match liquidity_spec(s, balance_a, balance_b, total_supply) {
            Err(e) => Err(e),
            Ok(l) => if l <= 0 {
                Err(PairError::InsufficientLiquidityMinted)
            } else if !in_i128(balance_a * balance_b) {
                Err(PairError::Overflow)
            } else {
                Ok(l)
            },
        },
    }
}

/// The LP a burn destroys, given the pair's own LP balance: what was sent to
/// the pair, that is the balance less the `MINIMUM_LIQUIDITY` locked there
/// by the first deposit.
pub open spec fn lp_sent(lp_balance: int) -> int {
    lp_balance - MINIMUM_LIQUIDITY
}

/// Amounts paid out for a burn when the pair holds `lp_balance` of
/// `total_supply`: each reserve times `lp_sent(lp_balance) / total_supply`,
/// rounded toward zero. The locked minimum is not burned.
pub open spec fn burn_spec(p: Pair, lp_balance: int, total_supply: int) -> Result<(int, int), PairError> {
    match p.pair_state {
        None => Err(PairError::NotInitialized),
        Some(s) => {
            let lp = lp_sent(lp_balance);
            let pa = lp * s.reserve_a;
            let pb = lp * s.reserve_b;
            let amount_a = trunc_div(pa, total_supply);
            let amount_b = trunc_div(pb, total_supply);
            if total_supply == 0 || lp <= 0 {
                Err(PairError::InsufficientLiquidityBurned)
            } else if !in_i128(pa) || div_panics(pa, total_supply) || !in_i128(pb) || div_panics(pb, total_supply) {
                Err(PairError::Overflow)
            } else if amount_a <= 0 || amount_b <= 0 {
                Err(PairError::InsufficientLiquidityBurned)
            } else if !in_i128(s.reserve_a - amount_a) || !in_i128(s.reserve_b - amount_b)
                || !in_i128((s.reserve_a - amount_a) * (s.reserve_b - amount_b)) {
                Err(PairError::Overflow)
            } else {
                Ok((amount_a, amount_b))
            }
        },
    }
}


/// The proportional shares of a single-sided exit and the reserves after
/// burning them, split into the preferred and the unwanted side.
pub struct ExitShares {
    pub share_preferred: int,
    pub share_unwanted: int,
    pub reserve_preferred: int,
    pub reserve_unwanted: int,
    pub preferred_post_burn: int,
    pub unwanted_post_burn: int,
    pub prefer_a: bool,
}

/// The machine values of `ExitShares`.
pub struct ExitAmounts {
    pub share_preferred: i128,
    pub share_unwanted: i128,
    pub reserve_preferred: i128,
    pub reserve_unwanted: i128,
    pub preferred_post_burn: i128,
    pub unwanted_post_burn: i128,
    pub prefer_a: bool,
}

impl ExitAmounts {
    /// The shares as integers.
    pub open spec fn view(&self) -> ExitShares {
        ExitShares {
            share_preferred: self.share_preferred as int,
            share_unwanted: self.share_unwanted as int,
            reserve_preferred: self.reserve_preferred as int,
            reserve_unwanted: self.reserve_unwanted as int,
            preferred_post_burn: self.preferred_post_burn as int,
            unwanted_post_burn: self.unwanted_post_burn as int,
            prefer_a: self.prefer_a,
        }
    }
}

/// Shares of `lp_amount` out of `total_supply` (rounded toward zero), with the
/// error each guard or overflow gives.
pub open spec fn exit_shares(reserve_a: int, reserve_b: int, lp_amount: int, total_supply: int, prefer_a: bool) -> Result<ExitShares, PairError> {
    let pa = lp_amount * reserve_a;
    let pb = lp_amount * reserve_b;
    let share_a = trunc_div(pa, total_supply);
    let share_b = trunc_div(pb, total_supply);
    let (sp, su, rp, ru) = if prefer_a {
        (share_a, share_b, reserve_a, reserve_b)
    } else {
        (share_b, share_a, reserve_b, reserve_a)
    };
    if !in_i128(pa) || div_panics(pa, total_supply) || !in_i128(pb) || div_panics(pb, total_supply) {
        Err(PairError::Overflow)
    } else if share_a <= 0 || share_b <= 0 {
        Err(PairError::InsufficientLiquidityBurned)
    } else if !in_i128(rp - sp) || !in_i128(ru - su) {
        Err(PairError::Overflow)
    } else {
        Ok(ExitShares {
            share_preferred: sp,
            share_unwanted: su,
            reserve_preferred: rp,
            reserve_unwanted: ru,
            preferred_post_burn: rp - sp,
            unwanted_post_burn: ru - su,
            prefer_a,
        })
    }
}

/// The internal swap of the unwanted share into the preferred token on the
/// post-burn reserves, the slippage and K checks, and the final reserves
/// `(total_out, reserve_a, reserve_b)`; with the error each check gives.
pub open spec fn exit_swap(x: ExitShares, fee: int, min_amount_out: int) -> Result<(int, int, int), PairError> {
    let with_fee = x.share_unwanted * (10000 - fee);
    let numerator = with_fee * x.preferred_post_burn;
    let scaled = x.unwanted_post_burn * 10000;
    let denominator = scaled + with_fee;
    let swap_out = trunc_div(numerator, denominator);
    let total_out = x.share_preferred + swap_out;
    let preferred_final = x.preferred_post_burn - swap_out;
    let k_before = x.preferred_post_burn * x.unwanted_post_burn;
    let preferred_adj = preferred_final * 10000;
    let unwanted_scaled = x.reserve_unwanted * 10000;
    let fee_part = x.share_unwanted * fee;
    let unwanted_adj = unwanted_scaled - fee_part;
    let k_after = preferred_adj * unwanted_adj;
    let (new_a, new_b) = if x.prefer_a {
        (preferred_final, x.reserve_unwanted)
    } else {
        (x.reserve_unwanted, preferred_final)
    };
    if !in_i128(with_fee) || !in_i128(numerator) || !in_i128(scaled) || !in_i128(denominator) {
        Err(PairError::Overflow)
    } else if denominator == 0 {
        Err(PairError::InsufficientLiquidity)
    } else if !in_i128(total_out) {
        Err(PairError::Overflow)
    } else if total_out < min_amount_out {
        Err(PairError::SlippageExceeded)
    } else if !in_i128(preferred_final) || !in_i128(k_before) || !in_i128(k_before * 100_000_000) {
        Err(PairError::Overflow)
    } else if !in_i128(preferred_adj) || !in_i128(unwanted_scaled) || !in_i128(fee_part) || !in_i128(unwanted_adj)
        || !in_i128(k_after) {
        Err(PairError::Overflow)
    } else if k_after < k_before * 100_000_000 {
        Err(PairError::InvalidK)
    } else if !in_i128(new_a * new_b) {
        Err(PairError::Overflow)
    } else {
        Ok((total_out, new_a, new_b))
    }
}

/// The internal swap of a single-sided exit divides `i128::MIN` by -1.
pub open spec fn exit_swap_panics(x: ExitShares, fee: int) -> bool {
    let with_fee = x.share_unwanted * (10000 - fee);
    let numerator = with_fee * x.preferred_post_burn;
    let scaled = x.unwanted_post_burn * 10000;
    let denominator = scaled + with_fee;
    in_i128(with_fee) && in_i128(numerator) && in_i128(scaled) && in_i128(denominator)
        && denominator != 0 && div_panics(numerator, denominator)
}

/// The validation of a single-sided exit up to the shares; on success the
/// shares and the fee state.
pub open spec fn exit_prepare(p: Pair, lp_amount: int, preferred: Seq<u8>, min_amount_out: int, total_supply: int) -> Result<(ExitShares, FeeState), PairError> {
    match p.pair_state {
        None => Err(PairError::NotInitialized),
        Some(s) => match p.fee_state {
            None => Err(PairError::NotInitialized),
            Some(fs) => if lp_amount <= 0 || min_amount_out <= 0 {
                Err(PairError::InvalidInput)
            } else if preferred != s.token_a@ && preferred != s.token_b@ {
                Err(PairError::InvalidInput)
            } else if total_supply == 0 {
                Err(PairError::InsufficientLiquidityBurned)
            } else {
                match exit_shares(s.reserve_a as int, s.reserve_b as int, lp_amount, total_supply, preferred == s.token_a@) {
                    Err(e) => Err(e),
                    Ok(x) => Ok((x, fs)),
                }
            },
        },
    }
}

/// Outcome of burning `lp_amount` and exiting wholly into `preferred`:
/// `(total_out, new reserve_a, new reserve_b)`, or the error.
pub open spec fn burn_single_side_spec(p: Pair, lp_amount: int, preferred: Seq<u8>, min_amount_out: int, total_supply: int) -> Result<(int, int, int), PairError> {
    match exit_prepare(p, lp_amount, preferred, min_amount_out, total_supply) {
        Err(e) => Err(e),
        Ok((x, fs)) => exit_swap(x, fee_bps_spec(fs), min_amount_out),
    }
}

/// The single-sided exit panics: it reaches the fee computation with
/// unordered fee bounds, or its internal swap divides `i128::MIN` by -1.
pub open spec fn burn_single_side_panics(p: Pair, lp_amount: int, preferred: Seq<u8>, min_amount_out: int, total_supply: int) -> bool {
    match exit_prepare(p, lp_amount, preferred, min_amount_out, total_supply) {
        Err(_) => false,
        Ok((x, fs)) => !fee_bounds_ordered(fs) || exit_swap_panics(x, fee_bps_spec(fs)),
    }
}

/// The fee a swap charges: the factory's per-pair override where one is set,
/// else the dynamic fee.
pub open spec fn swap_fee_spec(fs: FeeState, fee_override: Option<u32>) -> int {
    match fee_override {
        Some(o) => o as int,
        None => fee_bps_spec(fs),
    }
}

/// The swap fee can be formed: an override is set, or the dynamic fee's
/// bounds are ordered.
pub open spec fn swap_fee_defined(fs: FeeState, fee_override: Option<u32>) -> bool {
    fee_override is Some || fee_bounds_ordered(fs)
}

/// The checks a swap makes before paying out; on success the fee it charges.
pub open spec fn swap_check_spec(p: Pair, amount_a_out: int, amount_b_out: int, fee_override: Option<u32>) -> Result<int, PairError> {
    if amount_a_out <= 0 && amount_b_out <= 0 {
        Err(PairError::InsufficientOutputAmount)
    } else {
        match p.pair_state {
            None => Err(PairError::NotInitialized),
            Some(s) => match p.fee_state {
                None => Err(PairError::NotInitialized),
                Some(fs) => if amount_a_out >= s.reserve_a || amount_b_out >= s.reserve_b {
                    Err(PairError::InsufficientLiquidity)
                } else {
                    Ok(swap_fee_spec(fs, fee_override))
                },
            },
        }
    }
}

/// `x` if positive, else 0.
pub open spec fn pos_part(x: int) -> int {
    if x > 0 { x } else { 0 }
}

/// What a swap received of token A: the balance above `reserve_a - amount_a_out`.
pub open spec fn amount_in_of(balance: int, reserve: int, amount_out: int) -> int {
    pos_part(balance - (reserve - amount_out))
}

/// The settlement of a swap after payout, given the balances then observed:
/// the amounts received `(amount_a_in, amount_b_in)`, or the error of the
/// fee-adjusted K check `(bal_a*10000 - in_a*fee) * (bal_b*10000 - in_b*fee) >= ra*rb*10^8`.
pub open spec fn swap_settle_spec(s: PairStorage, amount_a_out: int, amount_b_out: int, balance_a: int, balance_b: int, fee: int) -> Result<(int, int), PairError> {
    let a_in = amount_in_of(balance_a, s.reserve_a as int, amount_a_out);
    let b_in = amount_in_of(balance_b, s.reserve_b as int, amount_b_out);
    let a_scaled = balance_a * 10000;
    let a_adj = a_scaled - a_in * fee;
    let b_scaled = balance_b * 10000;
    let b_adj = b_scaled - b_in * fee;
    let k_before = s.reserve_a * s.reserve_b;
    let k_after = a_adj * b_adj;
    if a_in <= 0 && b_in <= 0 {
        Err(PairError::InsufficientInputAmount)
    } else if !in_i128(a_scaled) || !in_i128(a_adj) || !in_i128(b_scaled) || !in_i128(b_adj) {
        Err(PairError::Overflow)
    } else if !in_i128(k_before) || !in_i128(k_before * 100_000_000) || !in_i128(k_after) {
        Err(PairError::Overflow)
    } else if k_after < k_before * 100_000_000 {
        Err(PairError::InvalidK)
    } else if !in_i128(balance_a * balance_b) {
        Err(PairError::Overflow)
    } else {
        Ok((a_in, b_in))
    }
}

/// The settlement overflows an unchecked operation: the amount received
/// cannot be formed, or its fee part overflows.
pub open spec fn swap_settle_panics(s: PairStorage, amount_a_out: int, amount_b_out: int, balance_a: int, balance_b: int, fee: int) -> bool {
    let a_in = amount_in_of(balance_a, s.reserve_a as int, amount_a_out);
    let b_in = amount_in_of(balance_b, s.reserve_b as int, amount_b_out);
    let a_scaled = balance_a * 10000;
    let a_adj = a_scaled - a_in * fee;
    let b_scaled = balance_b * 10000;
    ||| !in_i128(s.reserve_a - amount_a_out) || !in_i128(balance_a - (s.reserve_a - amount_a_out))
    ||| !in_i128(s.reserve_b - amount_b_out) || !in_i128(balance_b - (s.reserve_b - amount_b_out))
    ||| !(a_in <= 0 && b_in <= 0) && in_i128(a_scaled) && !in_i128(a_in * fee)
    ||| !(a_in <= 0 && b_in <= 0) && in_i128(a_scaled) && in_i128(a_adj) && in_i128(b_scaled) && !in_i128(b_in * fee)
}

/// Outcome of a swap paying out `amount_a_out` and `amount_b_out`, given the
/// balances observed after the payout: `(amount_a_in, amount_b_in, fee_bps)`.
pub open spec fn swap_spec(p: Pair, amount_a_out: int, amount_b_out: int, balance_a: int, balance_b: int, fee_override: Option<u32>) -> Result<(int, int, int), PairError> {
    match swap_check_spec(p, amount_a_out, amount_b_out, fee_override) {
        Err(e) => Err(e),
        Ok(fee) => match swap_settle_spec(p.pair_state.unwrap(), amount_a_out, amount_b_out, balance_a, balance_b, fee) {
            Err(e) => Err(e),
            Ok((a_in, b_in)) => Ok((a_in, b_in, fee)),
        },
    }
}

/// The swap panics: no override and unordered fee bounds, or an unchecked
/// operation overflows.
pub open spec fn swap_panics(p: Pair, amount_a_out: int, amount_b_out: int, balance_a: int, balance_b: int, fee_override: Option<u32>) -> bool {
    !(amount_a_out <= 0 && amount_b_out <= 0) && p.pair_state is Some && p.fee_state is Some && ({
        let s = p.pair_state.unwrap();
        let fs = p.fee_state.unwrap();
        !(amount_a_out >= s.reserve_a || amount_b_out >= s.reserve_b) && (!swap_fee_defined(fs, fee_override)
            || swap_settle_panics(s, amount_a_out, amount_b_out, balance_a, balance_b, swap_fee_spec(fs, fee_override)))
    })
}

/// The price of A in B scaled by `SCALE`, or 0 where the scaling overflows.
pub open spec fn scaled_price(reserve_num: int, reserve_den: int) -> int {
    if in_i128(reserve_num * SCALE) {
        (reserve_num * SCALE) / reserve_den
    } else {
        0
    }
}

/// The fee state after a settled swap: with all reserves positive before and
/// after, the volatility accumulator absorbs the price move weighted by the
/// larger input against the (saturating) sum of the new reserves; a failed
/// update leaves the state as it was.
pub open spec fn fee_state_after_swap(fs: FeeState, s: PairStorage, balance_a: int, balance_b: int, a_in: int, b_in: int, timestamp: u64) -> FeeState {
    if s.reserve_a > 0 && s.reserve_b > 0 && balance_a > 0 && balance_b > 0 {
        let before = scaled_price(s.reserve_b as int, s.reserve_a as int);
        let after = scaled_price(balance_b, balance_a);
        let delta = if after > before { after - before } else { before - after };
        let trade = if a_in >= b_in { a_in } else { b_in };
        match volatility_update(fs, delta, trade, sat_add(balance_a, balance_b)) {
            Ok(v) => FeeState { vol_accumulator: v as i128, last_fee_update: timestamp, ..fs },
            Err(_) => fs,
        }
    } else {
        fs
    }
}

/// `amount * reserve / total_supply` rounded toward zero, `None` where the
/// product overflows or the division is undefined.
pub fn share_of(amount: i128, reserve: i128, total_supply: i128) -> (r: Option<i128>)
    ensures
        r is None <==> !in_i128(amount * reserve) || div_panics(amount * reserve, total_supply as int),
        r matches Some(v) ==> v == trunc_div(amount * reserve, total_supply as int),
{
    let product = match amount.checked_mul(reserve) {
        Some(v) => v,
        None => return None,
    };
    proof {
        if !div_panics(product as int, total_supply as int) {
            crate::arith::lemma_trunc_div_in_range(product as int, total_supply as int);
        }
    }
    product.checked_div(total_supply)
}

/// `num * SCALE / den`, or 0 where the scaling overflows.
pub fn price_scaled(num: i128, den: i128) -> (r: i128)
    requires
        num > 0,
        den > 0,
    ensures
        r == scaled_price(num as int, den as int),
        r >= 0,
{
    match num.checked_mul(SCALE) {
        Some(v) => {
            proof {
                vstd::arithmetic::div_mod::lemma_div_pos_is_pos(v as int, den as int);
                vstd::arithmetic::div_mod::lemma_div_is_ordered_by_denominator(v as int, 1, den as int);
            }
            v / den
        },
        None => 0,
    }
}

/// The liquidity a deposit mints with the amounts deposited.
fn liquidity_for(s: &PairStorage, balance_a: i128, balance_b: i128, total_supply: i128) -> (r: Result<(i128, i128, i128), PairError>)
    ensures
        match r {
            Ok((l, a, b)) => {
                &&& liquidity_spec(*s, balance_a as int, balance_b as int, total_supply as int) == Ok::<int, PairError>(l as int)
                &&& a == balance_a - s.reserve_a
                &&& b == balance_b - s.reserve_b
            },
            Err(e) => liquidity_spec(*s, balance_a as int, balance_b as int, total_supply as int) == Err::<int, PairError>(e),
        },
{
    let amount_a = match balance_a.checked_sub(s.reserve_a) {
        Some(v) => v,
        None => return Err(PairError::InvalidInput),
    };
    let amount_b = match balance_b.checked_sub(s.reserve_b) {
        Some(v) => v,
        None => return Err(PairError::InvalidInput),
    };
    let liquidity: i128;
    if total_supply == 0 {
        let product = match amount_a.checked_mul(amount_b) {
            Some(v) => v,
            None => return Err(PairError::Overflow),
        };
        let root = sqrt(product);
        proof {
            if product > 0 {
                assert(root * root <= product);
                assert(root <= product) by (nonlinear_arith)
                    requires root * root <= product, root >= 0;
            }
        }
        liquidity = root - MINIMUM_LIQUIDITY;
        assert(liquidity == floor_sqrt(amount_a * amount_b) - MINIMUM_LIQUIDITY);
    } else {
        let la = match amount_a.checked_mul(total_supply) {
            Some(v) => v,
            None => return Err(PairError::Overflow),
        };
        proof {
            if !div_panics(la as int, s.reserve_a as int) {
                crate::arith::lemma_trunc_div_in_range(la as int, s.reserve_a as int);
            }
        }
        let liquidity_a = match la.checked_div(s.reserve_a) {
            Some(v) => v,
            None => return Err(PairError::Overflow),
        };
        let lb = match amount_b.checked_mul(total_supply) {
            Some(v) => v,
            None => return Err(PairError::Overflow),
        };
        proof {
            if !div_panics(lb as int, s.reserve_b as int) {
                crate::arith::lemma_trunc_div_in_range(lb as int, s.reserve_b as int);
            }
        }
        let liquidity_b = match lb.checked_div(s.reserve_b) {
            Some(v) => v,
            None => return Err(PairError::Overflow),
        };
        assert(liquidity_a == trunc_div(la as int, s.reserve_a as int));
        assert(liquidity_b == trunc_div(lb as int, s.reserve_b as int));
        liquidity = if liquidity_a <= liquidity_b { liquidity_a } else { liquidity_b };
    }
    Ok((liquidity, amount_a, amount_b))
}


/// A deposit into a pool that already has a supply mints the smaller of the
/// two pro-rata shares: never more than either token's deposit times
/// `total_supply / reserve` (rounded toward zero), and exactly one of them.
pub proof fn lemma_mint_smaller_share(p: Pair, balance_a: int, balance_b: int, total_supply: int)
    requires
        total_supply != 0,
        mint_spec(p, balance_a, balance_b, total_supply) is Ok,
    ensures
        ({
            let s = p.pair_state.unwrap();
            let minted = mint_spec(p, balance_a, balance_b, total_supply)->Ok_0;
            let share_a = trunc_div((balance_a - s.reserve_a) * total_supply, s.reserve_a as int);
            let share_b = trunc_div((balance_b - s.reserve_b) * total_supply, s.reserve_b as int);
            &&& minted <= share_a
            &&& minted <= share_b
            &&& (minted == share_a || minted == share_b)
            &&& minted > 0
        }),
{
}

/// A successful swap takes as input of each token exactly what its balance
/// holds above the reserve less the payout, receives something, and charges
/// the fee on the input of each token: the fee-adjusted balances multiply to
/// at least the old reserves' product scaled by `10^8`. The fee is the
/// override where one is set, else the dynamic fee.
pub proof fn lemma_swap_charges_fee_on_each_input(p: Pair, amount_a_out: int, amount_b_out: int, balance_a: int, balance_b: int, fee_override: Option<u32>)
    requires
        swap_spec(p, amount_a_out, amount_b_out, balance_a, balance_b, fee_override) is Ok,
    ensures
        ({
            let s = p.pair_state.unwrap();
            let (a_in, b_in, fee) = swap_spec(p, amount_a_out, amount_b_out, balance_a, balance_b, fee_override)->Ok_0;
            let left_a = s.reserve_a - amount_a_out;
            let left_b = s.reserve_b - amount_b_out;
            &&& a_in == (if balance_a > left_a { balance_a - left_a } else { 0 })
            &&& b_in == (if balance_b > left_b { balance_b - left_b } else { 0 })
            &&& (a_in > 0 || b_in > 0)
            &&& (balance_a * 10000 - a_in * fee) * (balance_b * 10000 - b_in * fee)
                >= s.reserve_a * s.reserve_b * 100_000_000
            &&& fee == (match fee_override {
                Some(o) => o as int,
                None => fee_bps_spec(p.fee_state.unwrap()),
            })
            &&& (amount_a_out > 0 || amount_b_out > 0)
            &&& amount_a_out < s.reserve_a
            &&& amount_b_out < s.reserve_b
        }),
{
}

/// After a swap between positive reserves and positive balances, the
/// volatility update is fed the larger of the two inputs as the trade size
/// (so a swap in one direction is weighted by what came in), the absolute
/// move of the price `reserve_b / reserve_a` scaled by `SCALE`, and the sum
/// of the new reserves; a rejected update leaves the fee state unchanged.
pub proof fn lemma_swap_volatility_uses_larger_input(fs: FeeState, s: PairStorage, balance_a: int, balance_b: int, a_in: int, b_in: int, timestamp: u64)
    requires
        s.reserve_a > 0,
        s.reserve_b > 0,
        balance_a > 0,
        balance_b > 0,
    ensures
        ({
            let before = scaled_price(s.reserve_b as int, s.reserve_a as int);
            let after = scaled_price(balance_b, balance_a);
            let delta = if after >= before { after - before } else { before - after };
            let trade = if a_in >= b_in { a_in } else { b_in };
            let next = fee_state_after_swap(fs, s, balance_a, balance_b, a_in, b_in, timestamp);
            &&& trade >= a_in && trade >= b_in && (trade == a_in || trade == b_in)
            &&& match volatility_update(fs, delta, trade, sat_add(balance_a, balance_b)) {
                Ok(v) => next.vol_accumulator == v && next.last_fee_update == timestamp
                    && next.ema_alpha == fs.ema_alpha && next.baseline_fee_bps == fs.baseline_fee_bps
                    && next.min_fee_bps == fs.min_fee_bps && next.max_fee_bps == fs.max_fee_bps
                    && next.ramp_up_multiplier == fs.ramp_up_multiplier
                    && next.cooldown_divisor == fs.cooldown_divisor
                    && next.decay_threshold_blocks == fs.decay_threshold_blocks,
                Err(_) => next == fs,
            }
        }),
{
    let before = scaled_price(s.reserve_b as int, s.reserve_a as int);
    let after = scaled_price(balance_b, balance_a);
    let trade = if a_in >= b_in { a_in } else { b_in };
    if after == before {
        assert(after - before == before - after);
    }
    match volatility_update(fs, if after >= before { after - before } else { before - after }, trade, sat_add(balance_a, balance_b)) {
        Ok(v) => {
            crate::dynamic_fee::lemma_volatility_update_in_range(fs, if after >= before { after - before } else { before - after }, trade, sat_add(balance_a, balance_b));
        },
        Err(_) => {},
    }
}

/// A settled swap never lowers the constant product: with non-negative
/// reserves and balances and a fee of at most 100%, the new reserves (the
/// balances) multiply to at least the old ones.
pub proof fn lemma_swap_keeps_k(p: Pair, amount_a_out: int, amount_b_out: int, balance_a: int, balance_b: int, fee_override: Option<u32>)
    requires
        p.pair_state is Some,
        p.pair_state.unwrap().reserve_a >= 0,
        p.pair_state.unwrap().reserve_b >= 0,
        balance_a >= 0,
        balance_b >= 0,
        swap_spec(p, amount_a_out, amount_b_out, balance_a, balance_b, fee_override) is Ok,
        swap_spec(p, amount_a_out, amount_b_out, balance_a, balance_b, fee_override)->Ok_0.2 <= 10000,
    ensures
        balance_a * balance_b >= p.pair_state.unwrap().reserve_a * p.pair_state.unwrap().reserve_b,
{
    let s = p.pair_state.unwrap();
    let ra = s.reserve_a as int;
    let rb = s.reserve_b as int;
    let (a_in, b_in, fee) = swap_spec(p, amount_a_out, amount_b_out, balance_a, balance_b, fee_override)->Ok_0;
    assert(fee >= 0);
    let a_adj = balance_a * 10000 - a_in * fee;
    let b_adj = balance_b * 10000 - b_in * fee;
    assert(amount_a_out < ra && amount_b_out < rb);
    // Whatever came in is at most the balance.
    assert(0 <= a_in <= balance_a);
    assert(0 <= b_in <= balance_b);
    assert(0 <= a_in * fee <= balance_a * 10000) by (nonlinear_arith)
        requires 0 <= a_in <= balance_a, 0 <= fee <= 10000;
    assert(0 <= b_in * fee <= balance_b * 10000) by (nonlinear_arith)
        requires 0 <= b_in <= balance_b, 0 <= fee <= 10000;
    assert(a_adj * b_adj <= (balance_a * 10000) * (balance_b * 10000)) by (nonlinear_arith)
        requires 0 <= a_adj <= balance_a * 10000, 0 <= b_adj <= balance_b * 10000;
    assert(a_adj * b_adj >= ra * rb * 100_000_000);
    assert((balance_a * 10000) * (balance_b * 10000) == balance_a * balance_b * 100_000_000) by (nonlinear_arith);
    assert(ra * rb * 100_000_000 <= balance_a * balance_b * 100_000_000);
}

/// Accounting of a single-sided exit: the unwanted reserve is unchanged, the
/// preferred reserve drops by exactly the amount paid out, and the payout
/// meets the caller's minimum.
pub proof fn lemma_single_side_exit_accounting(p: Pair, lp_amount: int, preferred: Seq<u8>, min_amount_out: int, total_supply: int)
    requires
        burn_single_side_spec(p, lp_amount, preferred, min_amount_out, total_supply) is Ok,
    ensures
        ({
            let s = p.pair_state.unwrap();
            let (total_out, new_a, new_b) = burn_single_side_spec(p, lp_amount, preferred, min_amount_out, total_supply)->Ok_0;
            &&& total_out >= min_amount_out > 0
            &&& preferred == s.token_a@ ==> new_b == s.reserve_b && new_a == s.reserve_a - total_out
            &&& preferred != s.token_a@ ==> preferred == s.token_b@ && new_a == s.reserve_a && new_b == s.reserve_b - total_out
        }),
{
}

/// The swap leg of a single-sided exit does not lower the constant product:
/// with non-negative reserves, a burn of at most the supply and a fee of at
/// most 100%, the final reserves are non-negative and multiply to at least
/// the reserves left after the proportional burn.
pub proof fn lemma_single_side_exit_keeps_k(p: Pair, lp_amount: int, preferred: Seq<u8>, min_amount_out: int, total_supply: int)
    requires
        p.pair_state is Some,
        p.fee_state is Some,
        p.pair_state.unwrap().reserve_a >= 0,
        p.pair_state.unwrap().reserve_b >= 0,
        lp_amount <= total_supply,
        fee_bounds_ordered(p.fee_state.unwrap()),
        p.fee_state.unwrap().max_fee_bps <= 10000,
        burn_single_side_spec(p, lp_amount, preferred, min_amount_out, total_supply) is Ok,
    ensures
        ({
            let s = p.pair_state.unwrap();
            let (total_out, new_a, new_b) = burn_single_side_spec(p, lp_amount, preferred, min_amount_out, total_supply)->Ok_0;
            let post_a = s.reserve_a - trunc_div(lp_amount * s.reserve_a, total_supply);
            let post_b = s.reserve_b - trunc_div(lp_amount * s.reserve_b, total_supply);
            &&& new_a >= 0
            &&& new_b >= 0
            &&& new_a * new_b >= post_a * post_b
        }),
{
    let s = p.pair_state.unwrap();
    let fs = p.fee_state.unwrap();
    let ra = s.reserve_a as int;
    let rb = s.reserve_b as int;
    let (x, fs2) = exit_prepare(p, lp_amount, preferred, min_amount_out, total_supply)->Ok_0;
    assert(fs2 == fs);
    let fee = fee_bps_spec(fs);
    assert(0 <= fee <= 10000);
    // The shares are at most the reserves they are taken from.
    assert(0 <= lp_amount * ra <= total_supply * ra) by (nonlinear_arith)
        requires 0 < lp_amount <= total_supply, ra >= 0;
    assert(0 <= lp_amount * rb <= total_supply * rb) by (nonlinear_arith)
        requires 0 < lp_amount <= total_supply, rb >= 0;
    vstd::arithmetic::div_mod::lemma_div_is_ordered(lp_amount * ra, total_supply * ra, total_supply);
    vstd::arithmetic::div_mod::lemma_div_is_ordered(lp_amount * rb, total_supply * rb, total_supply);
    vstd::arithmetic::div_mod::lemma_div_multiples_vanish(ra, total_supply);
    vstd::arithmetic::div_mod::lemma_div_multiples_vanish(rb, total_supply);
    assert(total_supply * ra == ra * total_supply) by (nonlinear_arith);
    assert(total_supply * rb == rb * total_supply) by (nonlinear_arith);
    let ppb = x.preferred_post_burn;
    let upb = x.unwanted_post_burn;
    let su = x.share_unwanted;
    let ru = x.reserve_unwanted;
    assert(ppb >= 0 && upb >= 0 && su > 0 && ru >= su);
    // The swap pays out at most the post-burn preferred reserve.
    let with_fee = su * (10000 - fee);
    let numerator = with_fee * ppb;
    let denominator = upb * 10000 + with_fee;
    assert(with_fee >= 0) by (nonlinear_arith)
        requires with_fee == su * (10000 - fee), su > 0, fee <= 10000;
    assert(numerator >= 0) by (nonlinear_arith)
        requires numerator == with_fee * ppb, with_fee >= 0, ppb >= 0;
    assert(upb * 10000 >= 0) by (nonlinear_arith)
        requires upb >= 0;
    assert(denominator > 0);
    assert(numerator <= denominator * ppb) by (nonlinear_arith)
        requires numerator == with_fee * ppb, denominator >= with_fee, ppb >= 0;
    vstd::arithmetic::div_mod::lemma_div_is_ordered(numerator, denominator * ppb, denominator);
    vstd::arithmetic::div_mod::lemma_div_multiples_vanish(ppb, denominator);
    assert(denominator * ppb == ppb * denominator) by (nonlinear_arith);
    vstd::arithmetic::div_mod::lemma_div_pos_is_pos(numerator, denominator);
    let swap_out = trunc_div(numerator, denominator);
    assert(0 <= swap_out <= ppb);
    let pf = ppb - swap_out;
    // The fee-adjusted product bounds the plain product of the final reserves.
    let fee_part = su * fee;
    assert(fee_part >= 0) by (nonlinear_arith)
        requires fee_part == su * fee, su > 0, fee >= 0;
    let k_after = (pf * 10000) * (ru * 10000 - fee_part);
    assert(k_after >= ppb * upb * 100_000_000);
    assert(k_after <= (pf * 10000) * (ru * 10000)) by (nonlinear_arith)
        requires k_after == (pf * 10000) * (ru * 10000 - fee_part), pf >= 0, fee_part >= 0;
    assert((pf * 10000) * (ru * 10000) == pf * ru * 100_000_000) by (nonlinear_arith);
    assert(pf * ru >= ppb * upb) by (nonlinear_arith)
        requires pf * ru * 100_000_000 >= ppb * upb * 100_000_000;
    assert(ru * pf == pf * ru) by (nonlinear_arith);
    assert(upb * ppb == ppb * upb) by (nonlinear_arith);
}

/// A burn while the pair holds at most the whole supply pays out at most
/// each reserve, and something of each.
pub proof fn lemma_burn_within_reserves(p: Pair, lp_balance: int, total_supply: int)
    requires
        p.pair_state is Some,
        p.pair_state.unwrap().reserve_a >= 0,
        p.pair_state.unwrap().reserve_b >= 0,
        lp_balance <= total_supply,
        burn_spec(p, lp_balance, total_supply) is Ok,
    ensures
        0 < burn_spec(p, lp_balance, total_supply)->Ok_0.0 <= p.pair_state.unwrap().reserve_a,
        0 < burn_spec(p, lp_balance, total_supply)->Ok_0.1 <= p.pair_state.unwrap().reserve_b,
{
    let s = p.pair_state.unwrap();
    let ra = s.reserve_a as int;
    let rb = s.reserve_b as int;
    let lp = lp_sent(lp_balance);
    assert(0 < lp <= total_supply);
    assert(0 <= lp * ra <= total_supply * ra) by (nonlinear_arith)
        requires 0 <= lp <= total_supply, ra >= 0;
    assert(0 <= lp * rb <= total_supply * rb) by (nonlinear_arith)
        requires 0 <= lp <= total_supply, rb >= 0;
    vstd::arithmetic::div_mod::lemma_div_is_ordered(lp * ra, total_supply * ra, total_supply);
    vstd::arithmetic::div_mod::lemma_div_is_ordered(lp * rb, total_supply * rb, total_supply);
    vstd::arithmetic::div_mod::lemma_div_multiples_vanish(ra, total_supply);
    vstd::arithmetic::div_mod::lemma_div_multiples_vanish(rb, total_supply);
    assert(total_supply * ra == ra * total_supply) by (nonlinear_arith);
    assert(total_supply * rb == rb * total_supply) by (nonlinear_arith);
}

/// The first deposit mints the integer geometric mean of the two amounts,
/// of which `MINIMUM_LIQUIDITY` is locked: `liquidity + 1000` is the
/// greatest `r` with `r * r <= amount_a * amount_b`.
pub proof fn lemma_first_deposit_geometric_mean(p: Pair, balance_a: int, balance_b: int)
    requires
        mint_spec(p, balance_a, balance_b, 0) is Ok,
    ensures
        ({
            let s = p.pair_state.unwrap();
            let l = mint_spec(p, balance_a, balance_b, 0)->Ok_0;
            is_floor_sqrt((balance_a - s.reserve_a) * (balance_b - s.reserve_b), l + MINIMUM_LIQUIDITY)
        }),
{
    let s = p.pair_state.unwrap();
    let y = (balance_a - s.reserve_a) * (balance_b - s.reserve_b);
    let l = mint_spec(p, balance_a, balance_b, 0)->Ok_0;
    assert(l + MINIMUM_LIQUIDITY == floor_sqrt(y));
    assert(y > 0);
    crate::arith::lemma_floor_sqrt_exists(y);
}

impl Pair {
    /// A pair with nothing stored.
    pub fn new() -> (p: Self)
        ensures
            p.pair_state is None,
            p.fee_state is None,
            !p.reentrancy_guard.locked,
    {
        Pair { pair_state: None, fee_state: None, reentrancy_guard: ReentrancyGuard::new() }
    }

    /// Sets up an empty pool for `token_a` and `token_b` with the default fee
    /// configuration and an unlocked guard.
    pub fn initialize(
        &mut self,
        factory: Vec<u8>,
        token_a: Vec<u8>,
        token_b: Vec<u8>,
        lp_token: Vec<u8>,
        timestamp: u64,
    ) -> (r: Result<(), PairError>)
        ensures
            old(self).pair_state is Some ==> r == Err::<(), PairError>(PairError::AlreadyInitialized)
                && *final(self) == *old(self),
            old(self).pair_state is None && token_a@ == token_b@ ==> r == Err::<(), PairError>(PairError::InvalidInput)
                && *final(self) == *old(self),
            old(self).pair_state is None && token_a@ != token_b@ ==> {
                &&& r == Ok::<(), PairError>(())
                &&& final(self).pair_state == Some(PairStorage {
                    factory, token_a, token_b, lp_token,
                    reserve_a: 0, reserve_b: 0,
                    block_timestamp_last: timestamp,
                    price_a_cumulative: 0, price_b_cumulative: 0,
                    k_last: 0,
                })
                &&& final(self).fee_state == Some(initial_fee_state())
                &&& !final(self).reentrancy_guard.locked
            },
    {
        if self.pair_state.is_some() {
            return Err(PairError::AlreadyInitialized);
        }
        if bytes_equal(&token_a, &token_b) {
            return Err(PairError::InvalidInput);
        }
        self.pair_state = Some(PairStorage {
            factory,
            token_a,
            token_b,
            lp_token,
            reserve_a: 0,
            reserve_b: 0,
            block_timestamp_last: timestamp,
            price_a_cumulative: 0,
            price_b_cumulative: 0,
            k_last: 0,
        });
        self.fee_state = Some(FeeState {
            vol_accumulator: 0,
            ema_alpha: 10_000_000_000_000,
            baseline_fee_bps: 30,
            min_fee_bps: 10,
            max_fee_bps: 100,
            ramp_up_multiplier: 2,
            cooldown_divisor: 2,
            last_fee_update: 0,
            decay_threshold_blocks: 100,
        });
        self.reentrancy_guard = ReentrancyGuard::new();
        Ok(())
    }

    /// Mints liquidity for what was deposited since the last update: the
    /// pair's token balances above its reserves. The reserves become the
    /// balances. On error nothing changes.
    pub fn mint(&mut self, balance_a: i128, balance_b: i128, total_supply: i128, timestamp: u64) -> (r: Result<MintOutcome, PairError>)
        ensures
            match r {
                Ok(m) => {
                    let s = old(self).pair_state.unwrap();
                    &&& mint_spec(*old(self), balance_a as int, balance_b as int, total_supply as int)
                        == Ok::<int, PairError>(m.liquidity as int)
                    &&& m.amount_a == balance_a - s.reserve_a
                    &&& m.amount_b == balance_b - s.reserve_b
                    &&& m.locks_minimum == (total_supply == 0)
                    &&& final(self).pair_state == Some(with_reserves(s, balance_a as int, balance_b as int,
                        balance_a * balance_b, timestamp))
                    &&& final(self).fee_state == old(self).fee_state
                    &&& final(self).reentrancy_guard == old(self).reentrancy_guard
                },
                Err(e) => {
                    &&& mint_spec(*old(self), balance_a as int, balance_b as int, total_supply as int)
                        == Err::<int, PairError>(e)
                    &&& *final(self) == *old(self)
                },
            },
    {
        let s = match &self.pair_state {
            Some(s) => s,
            None => return Err(PairError::NotInitialized),
        };
        let (liquidity, amount_a, amount_b) = match liquidity_for(s, balance_a, balance_b, total_supply) {
            Ok(t) => t,
            Err(e) => return Err(e),
        };
        if liquidity <= 0 {
            return Err(PairError::InsufficientLiquidityMinted);
        }
        let k_last = match balance_a.checked_mul(balance_b) {
            Some(v) => v,
            None => return Err(PairError::Overflow),
        };
        let mut new_state = self.pair_state.take().unwrap();
        new_state.reserve_a = balance_a;
        new_state.reserve_b = balance_b;
        new_state.k_last = k_last;
        new_state.block_timestamp_last = timestamp;
        self.pair_state = Some(new_state);
        Ok(MintOutcome { liquidity, amount_a, amount_b, locks_minimum: total_supply == 0 })
    }

    /// Burns the liquidity sent to the pair, whose LP balance is `lp_balance`:
    /// everything but the `MINIMUM_LIQUIDITY` locked there stays locked. Pays
    /// out each reserve in proportion `(lp_balance - MINIMUM_LIQUIDITY) /
    /// total_supply` and lowers the reserves by the payout.
    pub fn burn(&mut self, lp_balance: i128, total_supply: i128, timestamp: u64) -> (r: Result<BurnOutcome, PairError>)
        ensures
            match r {
                Ok(o) => {
                    let s = old(self).pair_state.unwrap();
                    let a = o.amount_a;
                    let b = o.amount_b;
                    &&& o.lp_burned == lp_sent(lp_balance as int)
                    &&& burn_spec(*old(self), lp_balance as int, total_supply as int) == Ok::<(int, int), PairError>((a as int, b as int))
                    &&& final(self).pair_state == Some(with_reserves(s, s.reserve_a - a, s.reserve_b - b,
                        (s.reserve_a - a) * (s.reserve_b - b), timestamp))
                    &&& final(self).fee_state == old(self).fee_state
                    &&& final(self).reentrancy_guard == old(self).reentrancy_guard
                },
                Err(e) => {
                    &&& burn_spec(*old(self), lp_balance as int, total_supply as int) == Err::<(int, int), PairError>(e)
                    &&& *final(self) == *old(self)
                },
            },
    {
        let s = match &self.pair_state {
            Some(s) => s,
            None => return Err(PairError::NotInitialized),
        };
        if total_supply == 0 || lp_balance <= MINIMUM_LIQUIDITY {
            return Err(PairError::InsufficientLiquidityBurned);
        }
        let lp_burned = lp_balance - MINIMUM_LIQUIDITY;
        let amount_a = match share_of(lp_burned, s.reserve_a, total_supply) {
            Some(v) => v,
            None => return Err(PairError::Overflow),
        };
        let amount_b = match share_of(lp_burned, s.reserve_b, total_supply) {
            Some(v) => v,
            None => return Err(PairError::Overflow),
        };
        if amount_a <= 0 || amount_b <= 0 {
            return Err(PairError::InsufficientLiquidityBurned);
        }
        let new_a = match s.reserve_a.checked_sub(amount_a) {
            Some(v) => v,
            None => return Err(PairError::Overflow),
        };
        let new_b = match s.reserve_b.checked_sub(amount_b) {
            Some(v) => v,
            None => return Err(PairError::Overflow),
        };
        let k_last = match new_a.checked_mul(new_b) {
            Some(v) => v,
            None => return Err(PairError::Overflow),
        };
        let mut st = self.pair_state.take().unwrap();
        st.reserve_a = new_a;
        st.reserve_b = new_b;
        st.k_last = k_last;
        st.block_timestamp_last = timestamp;
        self.pair_state = Some(st);
        Ok(BurnOutcome { lp_burned, amount_a, amount_b })
    }

    /// The validation and proportional shares of a single-sided exit.
    fn prepare_exit(&self, lp_amount: i128, preferred_token: &Vec<u8>, min_amount_out: i128, total_supply: i128)
        -> (r: Result<(ExitAmounts, FeeState), PairError>)
        ensures
            match r {
                Ok((x, fs)) => exit_prepare(*self, lp_amount as int, preferred_token@, min_amount_out as int,
                    total_supply as int) == Ok::<(ExitShares, FeeState), PairError>((x.view(), fs)),
                Err(e) => exit_prepare(*self, lp_amount as int, preferred_token@, min_amount_out as int,
                    total_supply as int) == Err::<(ExitShares, FeeState), PairError>(e),
            },
    {
        let s = match &self.pair_state {
            Some(s) => s,
            None => return Err(PairError::NotInitialized),
        };
        let fs = match &self.fee_state {
            Some(f) => *f,
            None => return Err(PairError::NotInitialized),
        };
        if lp_amount <= 0 || min_amount_out <= 0 {
            return Err(PairError::InvalidInput);
        }
        let prefer_a = if bytes_equal(preferred_token, &s.token_a) {
            true
        } else if bytes_equal(preferred_token, &s.token_b) {
            false
        } else {
            return Err(PairError::InvalidInput);
        };
        if total_supply == 0 {
            return Err(PairError::InsufficientLiquidityBurned);
        }
        let share_a = match share_of(lp_amount, s.reserve_a, total_supply) {
            Some(v) => v,
            None => return Err(PairError::Overflow),
        };
        let share_b = match share_of(lp_amount, s.reserve_b, total_supply) {
            Some(v) => v,
            None => return Err(PairError::Overflow),
        };
        if share_a <= 0 || share_b <= 0 {
            return Err(PairError::InsufficientLiquidityBurned);
        }
        let (share_preferred, share_unwanted, reserve_preferred, reserve_unwanted) = if prefer_a {
            (share_a, share_b, s.reserve_a, s.reserve_b)
        } else {
            (share_b, share_a, s.reserve_b, s.reserve_a)
        };
        let preferred_post_burn = match reserve_preferred.checked_sub(share_preferred) {
            Some(v) => v,
            None => return Err(PairError::Overflow),
        };
        let unwanted_post_burn = match reserve_unwanted.checked_sub(share_unwanted) {
            Some(v) => v,
            None => return Err(PairError::Overflow),
        };
        Ok((ExitAmounts {
            share_preferred,
            share_unwanted,
            reserve_preferred,
            reserve_unwanted,
            preferred_post_burn,
            unwanted_post_burn,
            prefer_a,
        }, fs))
    }

    /// Tells whether `burn_single_side` would panic on these arguments.
    pub fn burn_single_side_would_panic(&self, lp_amount: i128, preferred_token: &Vec<u8>, min_amount_out: i128, total_supply: i128) -> (r: bool)
        ensures
            r == burn_single_side_panics(*self, lp_amount as int, preferred_token@, min_amount_out as int, total_supply as int),
    {
        let (x, fs) = match self.prepare_exit(lp_amount, preferred_token, min_amount_out, total_supply) {
            Ok(t) => t,
            Err(_) => return false,
        };
        if fs.min_fee_bps > fs.max_fee_bps {
            return true;
        }
        let fee_bps = compute_fee_bps(&fs) as i128;
        let with_fee = match x.share_unwanted.checked_mul(10000i128 - fee_bps) {
            Some(v) => v,
            None => return false,
        };
        let numerator = match with_fee.checked_mul(x.preferred_post_burn) {
            Some(v) => v,
            None => return false,
        };
        let scaled = match x.unwanted_post_burn.checked_mul(10000) {
            Some(v) => v,
            None => return false,
        };
        let denominator = match scaled.checked_add(with_fee) {
            Some(v) => v,
            None => return false,
        };
        denominator == -1 && numerator == i128::MIN
    }

    /// Tells whether `swap` would panic on these arguments.
    pub fn swap_would_panic(&self, amount_a_out: i128, amount_b_out: i128, balance_a: i128, balance_b: i128, fee_override: Option<u32>) -> (r: bool)
        ensures
            r == swap_panics(*self, amount_a_out as int, amount_b_out as int, balance_a as int, balance_b as int, fee_override),
    {
        if amount_a_out <= 0 && amount_b_out <= 0 {
            return false;
        }
        let s = match &self.pair_state {
            Some(s) => s,
            None => return false,
        };
        let fs = match &self.fee_state {
            Some(f) => f,
            None => return false,
        };
        if amount_a_out >= s.reserve_a || amount_b_out >= s.reserve_b {
            return false;
        }
        let fee = match fee_override {
            Some(o) => o as i128,
            None => {
                if fs.min_fee_bps > fs.max_fee_bps {
                    return true;
                }
                compute_fee_bps(fs) as i128
            },
        };
        let left_a = match s.reserve_a.checked_sub(amount_a_out) {
            Some(v) => v,
            None => return true,
        };
        let raw_a_in = match balance_a.checked_sub(left_a) {
            Some(v) => v,
            None => return true,
        };
        let left_b = match s.reserve_b.checked_sub(amount_b_out) {
            Some(v) => v,
            None => return true,
        };
        let raw_b_in = match balance_b.checked_sub(left_b) {
            Some(v) => v,
            None => return true,
        };
        let amount_a_in = if raw_a_in > 0 { raw_a_in } else { 0 };
        let amount_b_in = if raw_b_in > 0 { raw_b_in } else { 0 };
        if amount_a_in <= 0 && amount_b_in <= 0 {
            return false;
        }
        let a_scaled = match balance_a.checked_mul(10000) {
            Some(v) => v,
            None => return false,
        };
        let a_fee = match amount_a_in.checked_mul(fee) {
            Some(v) => v,
            None => return true,
        };
        if a_scaled.checked_sub(a_fee).is_none() {
            return false;
        }
        if balance_b.checked_mul(10000).is_none() {
            return false;
        }
        amount_b_in.checked_mul(fee).is_none()
    }

    /// Burns `lp_amount` and exits wholly into `preferred_token`: the
    /// proportional share of the preferred token plus the unwanted share
    /// swapped into it on the post-burn reserves at the current fee. The
    /// unwanted reserve is left as it was (its burned share re-enters as swap
    /// input); the preferred reserve drops by the amount paid out.
    pub fn burn_single_side(
        &mut self,
        lp_amount: i128,
        preferred_token: &Vec<u8>,
        min_amount_out: i128,
        total_supply: i128,
        timestamp: u64,
    ) -> (r: Result<i128, PairError>)
        requires
            !burn_single_side_panics(*old(self), lp_amount as int, preferred_token@, min_amount_out as int, total_supply as int),
        ensures
            match r {
                Ok(out) => {
                    let s = old(self).pair_state.unwrap();
                    let (total, na, nb) = burn_single_side_spec(*old(self), lp_amount as int, preferred_token@,
                        min_amount_out as int, total_supply as int)->Ok_0;
                    &&& burn_single_side_spec(*old(self), lp_amount as int, preferred_token@,
                        min_amount_out as int, total_supply as int) is Ok
                    &&& out == total
                    &&& final(self).pair_state == Some(with_reserves(s, na, nb, na * nb, timestamp))
                    &&& final(self).fee_state == old(self).fee_state
                    &&& final(self).reentrancy_guard == old(self).reentrancy_guard
                },
                Err(e) => {
                    &&& burn_single_side_spec(*old(self), lp_amount as int, preferred_token@,
                        min_amount_out as int, total_supply as int) == Err::<(int, int, int), PairError>(e)
                    &&& *final(self) == *old(self)
                },
            },
    {
        let (x, fs) = match self.prepare_exit(lp_amount, preferred_token, min_amount_out, total_supply) {
            Ok(t) => t,
            Err(e) => return Err(e),
        };
        let share_preferred = x.share_preferred;
        let share_unwanted = x.share_unwanted;
        let reserve_unwanted = x.reserve_unwanted;
        let preferred_post_burn = x.preferred_post_burn;
        let unwanted_post_burn = x.unwanted_post_burn;
        let prefer_a = x.prefer_a;
        let fee_bps = compute_fee_bps(&fs) as i128;
        let fee_factor = 10000i128 - fee_bps;
        let with_fee = match share_unwanted.checked_mul(fee_factor) {
            Some(v) => v,
            None => return Err(PairError::Overflow),
        };
        let numerator = match with_fee.checked_mul(preferred_post_burn) {
            Some(v) => v,
            None => return Err(PairError::Overflow),
        };
        let scaled = match unwanted_post_burn.checked_mul(10000) {
            Some(v) => v,
            None => return Err(PairError::Overflow),
        };
        let denominator = match scaled.checked_add(with_fee) {
            Some(v) => v,
            None => return Err(PairError::Overflow),
        };
        if denominator == 0 {
            return Err(PairError::InsufficientLiquidity);
        }
        let swap_out = div_i128(numerator, denominator);
        let total_out = match share_preferred.checked_add(swap_out) {
            Some(v) => v,
            None => return Err(PairError::Overflow),
        };
        if total_out < min_amount_out {
            return Err(PairError::SlippageExceeded);
        }
        let preferred_final = match preferred_post_burn.checked_sub(swap_out) {
            Some(v) => v,
            None => return Err(PairError::Overflow),
        };
        let k_before = match preferred_post_burn.checked_mul(unwanted_post_burn) {
            Some(v) => v,
            None => return Err(PairError::Overflow),
        };
        let k_before = match k_before.checked_mul(100_000_000) {
            Some(v) => v,
            None => return Err(PairError::Overflow),
        };
        let preferred_adj = match preferred_final.checked_mul(10000) {
            Some(v) => v,
            None => return Err(PairError::Overflow),
        };
        let unwanted_scaled = match reserve_unwanted.checked_mul(10000) {
            Some(v) => v,
            None => return Err(PairError::Overflow),
        };
        let fee_part = match share_unwanted.checked_mul(fee_bps) {
            Some(v) => v,
            None => return Err(PairError::Overflow),
        };
        let unwanted_adj = match unwanted_scaled.checked_sub(fee_part) {
            Some(v) => v,
            None => return Err(PairError::Overflow),
        };
        let k_after = match preferred_adj.checked_mul(unwanted_adj) {
            Some(v) => v,
            None => return Err(PairError::Overflow),
        };
        if k_after < k_before {
            return Err(PairError::InvalidK);
        }
        let (new_a, new_b) = if prefer_a {
            (preferred_final, reserve_unwanted)
        } else {
            (reserve_unwanted, preferred_final)
        };
        let k_last = match new_a.checked_mul(new_b) {
            Some(v) => v,
            None => return Err(PairError::Overflow),
        };
        let mut st = self.pair_state.take().unwrap();
        st.reserve_a = new_a;
        st.reserve_b = new_b;
        st.k_last = k_last;
        st.block_timestamp_last = timestamp;
        self.pair_state = Some(st);
        Ok(total_out)
    }

    /// The checks a swap makes before paying anything out; returns the fee
    /// the swap will charge: `fee_override`, the factory's per-pair fee,
    /// where one is set, else the dynamic fee.
    pub fn swap_check(&self, amount_a_out: i128, amount_b_out: i128, fee_override: Option<u32>) -> (r: Result<u32, PairError>)
        requires
            !(amount_a_out <= 0 && amount_b_out <= 0) && self.pair_state is Some && self.fee_state is Some
                && !(amount_a_out >= self.pair_state.unwrap().reserve_a || amount_b_out >= self.pair_state.unwrap().reserve_b)
                ==> swap_fee_defined(self.fee_state.unwrap(), fee_override),
        ensures
            match r {
                Ok(fee) => {
                    &&& swap_check_spec(*self, amount_a_out as int, amount_b_out as int, fee_override) == Ok::<int, PairError>(fee as int)
                    &&& fee_override matches Some(o) ==> fee == o
                    &&& fee_override is None ==> fee as int == fee_bps_spec(self.fee_state.unwrap())
                },
                Err(e) => swap_check_spec(*self, amount_a_out as int, amount_b_out as int, fee_override) == Err::<int, PairError>(e),
            },
    {
        if amount_a_out <= 0 && amount_b_out <= 0 {
            return Err(PairError::InsufficientOutputAmount);
        }
        let s = match &self.pair_state {
            Some(s) => s,
            None => return Err(PairError::NotInitialized),
        };
        let fs = match &self.fee_state {
            Some(f) => f,
            None => return Err(PairError::NotInitialized),
        };
        if amount_a_out >= s.reserve_a || amount_b_out >= s.reserve_b {
            return Err(PairError::InsufficientLiquidity);
        }
        match fee_override {
            Some(o) => Ok(o),
            None => Ok(compute_fee_bps(fs)),
        }
    }

    /// Settles a swap that paid out `amount_a_out` and `amount_b_out`, given
    /// the pair's token balances observed after the payout: the amounts
    /// received are the balances above what the reserves less the payout
    /// would leave; the fee-adjusted product of the balances must not fall
    /// below the product of the old reserves. The fee is `fee_override`, the
    /// factory's per-pair fee, where one is set, else the dynamic fee. The
    /// reserves become the balances and the volatility accumulator absorbs
    /// the price move.
    pub fn swap(
        &mut self,
        amount_a_out: i128,
        amount_b_out: i128,
        balance_a: i128,
        balance_b: i128,
        timestamp: u64,
        fee_override: Option<u32>,
    ) -> (r: Result<SwapOutcome, PairError>)
        requires
            !swap_panics(*old(self), amount_a_out as int, amount_b_out as int, balance_a as int, balance_b as int, fee_override),
        ensures
            match r {
                Ok(o) => {
                    let s = old(self).pair_state.unwrap();
                    let fs = old(self).fee_state.unwrap();
                    &&& swap_spec(*old(self), amount_a_out as int, amount_b_out as int, balance_a as int, balance_b as int, fee_override)
                        == Ok::<(int, int, int), PairError>((o.amount_a_in as int, o.amount_b_in as int, o.fee_bps as int))
                    &&& fee_override matches Some(f) ==> o.fee_bps == f
                    &&& fee_override is None ==> o.fee_bps as int == fee_bps_spec(fs)
                    &&& final(self).pair_state == Some(with_reserves(s, balance_a as int, balance_b as int,
                        balance_a * balance_b, timestamp))
                    &&& final(self).fee_state == Some(fee_state_after_swap(fs, s, balance_a as int, balance_b as int,
                        o.amount_a_in as int, o.amount_b_in as int, timestamp))
                    &&& final(self).reentrancy_guard == old(self).reentrancy_guard
                },
                Err(e) => {
                    &&& swap_spec(*old(self), amount_a_out as int, amount_b_out as int, balance_a as int, balance_b as int, fee_override)
                        == Err::<(int, int, int), PairError>(e)
                    &&& *final(self) == *old(self)
                },
            },
    {
        let fee_bps = match self.swap_check(amount_a_out, amount_b_out, fee_override) {
            Ok(f) => f,
            Err(e) => return Err(e),
        };
        let s = match &self.pair_state {
            Some(s) => s,
            None => return Err(PairError::NotInitialized),
        };
        let reserve_a = s.reserve_a;
        let reserve_b = s.reserve_b;
        let raw_a_in = balance_a - (reserve_a - amount_a_out);
        let raw_b_in = balance_b - (reserve_b - amount_b_out);
        let amount_a_in = if raw_a_in > 0 { raw_a_in } else { 0 };
        let amount_b_in = if raw_b_in > 0 { raw_b_in } else { 0 };
        if amount_a_in <= 0 && amount_b_in <= 0 {
            return Err(PairError::InsufficientInputAmount);
        }
        let fee = fee_bps as i128;
        let a_scaled = match balance_a.checked_mul(10000) {
            Some(v) => v,
            None => return Err(PairError::Overflow),
        };
        let a_adj = match a_scaled.checked_sub(amount_a_in * fee) {
            Some(v) => v,
            None => return Err(PairError::Overflow),
        };
        let b_scaled = match balance_b.checked_mul(10000) {
            Some(v) => v,
            None => return Err(PairError::Overflow),
        };
        let b_adj = match b_scaled.checked_sub(amount_b_in * fee) {
            Some(v) => v,
            None => return Err(PairError::Overflow),
        };
        let k_before = match reserve_a.checked_mul(reserve_b) {
            Some(v) => v,
            None => return Err(PairError::Overflow),
        };
        let k_before = match k_before.checked_mul(100_000_000) {
            Some(v) => v,
            None => return Err(PairError::Overflow),
        };
        let k_after = match a_adj.checked_mul(b_adj) {
            Some(v) => v,
            None => return Err(PairError::Overflow),
        };
        if k_after < k_before {
            return Err(PairError::InvalidK);
        }
        let k_last = match balance_a.checked_mul(balance_b) {
            Some(v) => v,
            None => return Err(PairError::Overflow),
        };
        let mut fs = match self.fee_state {
            Some(f) => f,
            None => return Err(PairError::NotInitialized),
        };
        if reserve_a > 0 && reserve_b > 0 && balance_a > 0 && balance_b > 0 {
            let before = price_scaled(reserve_b, reserve_a);
            let after = price_scaled(balance_b, balance_a);
            let delta = if after > before { after - before } else { before - after };
            let trade_size = if amount_a_in >= amount_b_in { amount_a_in } else { amount_b_in };
            let total_reserve = saturating_add_i128(balance_a, balance_b);
            let _ = update_volatility(&mut fs, delta, trade_size, total_reserve, timestamp);
        }
        let mut st = self.pair_state.take().unwrap();
        st.reserve_a = balance_a;
        st.reserve_b = balance_b;
        st.k_last = k_last;
        st.block_timestamp_last = timestamp;
        self.pair_state = Some(st);
        self.fee_state = Some(fs);
        Ok(SwapOutcome { amount_a_in, amount_b_in, fee_bps })
    }

    /// Sets the reserves to the observed token balances.
    pub fn sync(&mut self, balance_a: i128, balance_b: i128, timestamp: u64) -> (r: Result<(), PairError>)
        ensures
            old(self).pair_state is None ==> r == Err::<(), PairError>(PairError::NotInitialized) && *final(self) == *old(self),
            old(self).pair_state is Some && !in_i128(balance_a * balance_b) ==> r == Err::<(), PairError>(PairError::Overflow)
                && *final(self) == *old(self),
            old(self).pair_state is Some && in_i128(balance_a * balance_b) ==> {
                &&& r == Ok::<(), PairError>(())
                &&& final(self).pair_state == Some(with_reserves(old(self).pair_state.unwrap(), balance_a as int,
                    balance_b as int, balance_a * balance_b, timestamp))
                &&& final(self).fee_state == old(self).fee_state
                &&& final(self).reentrancy_guard == old(self).reentrancy_guard
            },
    {
        if self.pair_state.is_none() {
            return Err(PairError::NotInitialized);
        }
        let k_last = match balance_a.checked_mul(balance_b) {
            Some(v) => v,
            None => return Err(PairError::Overflow),
        };
        let mut st = self.pair_state.take().unwrap();
        st.reserve_a = balance_a;
        st.reserve_b = balance_b;
        st.block_timestamp_last = timestamp;
        st.k_last = k_last;
        self.pair_state = Some(st);
        Ok(())
    }

    /// Returns `(reserve_a, reserve_b, block_timestamp_last)`.
    pub fn get_reserves(&self) -> (r: Result<(i128, i128, u64), PairError>)
        ensures
            match self.pair_state {
                None => r == Err::<(i128, i128, u64), PairError>(PairError::NotInitialized),
                Some(s) => r == Ok::<(i128, i128, u64), PairError>((s.reserve_a, s.reserve_b, s.block_timestamp_last)),
            },
    {
        match &self.pair_state {
            Some(s) => Ok((s.reserve_a, s.reserve_b, s.block_timestamp_last)),
            None => Err(PairError::NotInitialized),
        }
    }

    /// Returns the LP token address.
    pub fn lp_token(&self) -> (r: Result<Vec<u8>, PairError>)
        ensures
            match self.pair_state {
                None => r == Err::<Vec<u8>, PairError>(PairError::NotInitialized),
                Some(s) => r matches Ok(a) && a@ == s.lp_token@,
            },
    {
        match &self.pair_state {
            Some(s) => Ok(copy_bytes(&s.lp_token)),
            None => Err(PairError::NotInitialized),
        }
    }

    /// Returns the current dynamic fee in basis points, or the default 30
    /// where the pair holds no fee state.
    pub fn get_current_fee_bps(&self) -> (fee: u32)
        requires
            self.fee_state matches Some(fs) ==> fee_bounds_ordered(fs),
        ensures
            match self.fee_state {
                None => fee == DEFAULT_FEE_BPS,
                Some(fs) => fee as int == fee_bps_spec(fs),
            },
    {
        match &self.fee_state {
            Some(fs) => compute_fee_bps(fs),
            None => DEFAULT_FEE_BPS,
        }
    }
}

} // verus!
