use coralswap::arith::sqrt;
use coralswap::errors::PairError;
use coralswap::pair::{Pair, MINIMUM_LIQUIDITY};

fn address(tag: u8) -> Vec<u8> {
    vec![0u8, 0, 0, 18, 0, 0, 0, 1, tag, tag, tag, tag]
}

fn token_a() -> Vec<u8> {
    address(2)
}

fn token_b() -> Vec<u8> {
    address(3)
}

/// A pair funded by a first deposit of `reserve_a` and `reserve_b`; returns
/// the pair and the LP supply.
fn setup_pair(reserve_a: i128, reserve_b: i128) -> (Pair, i128) {
    let mut pair = Pair::new();
    pair.initialize(address(1), token_a(), token_b(), address(4), 0).unwrap();
    let minted = pair.mint(reserve_a, reserve_b, 0, 0).unwrap();
    assert!(minted.locks_minimum);
    (pair, minted.liquidity + MINIMUM_LIQUIDITY)
}

fn get_amount_out(amount_in: i128, reserve_in: i128, reserve_out: i128, fee_bps: i128) -> i128 {
    let fee_factor = 10_000 - fee_bps;
    let aif = amount_in * fee_factor;
    aif * reserve_out / (reserve_in * 10_000 + aif)
}

#[test]
fn test_burn_single_side_exit_token_a() {
    let reserve = 1_000_000_000i128;
    let (mut pair, total_supply) = setup_pair(reserve, reserve);
    assert_eq!(total_supply, 1_000_000_000);

    let lp_amount = 10_000_000i128;
    let share_a = lp_amount * reserve / total_supply;
    let share_b = lp_amount * reserve / total_supply;
    let swap_out = get_amount_out(share_b, reserve - share_b, reserve - share_a, 30);
    let expected_total = share_a + swap_out;
    assert_eq!(expected_total, 19_870_596);

    let result = pair.burn_single_side(lp_amount, &token_a(), 1, total_supply, 0);
    assert_eq!(result, Ok(expected_total));
}

#[test]
fn test_burn_single_side_exit_token_b() {
    let reserve_a = 1_000_000_000i128;
    let reserve_b = 4_000_000_000i128;
    let (mut pair, total_supply) = setup_pair(reserve_a, reserve_b);
    assert_eq!(total_supply, 2_000_000_000);

    let lp_amount = 20_000_000i128;
    let share_a = lp_amount * reserve_a / total_supply;
    let share_b = lp_amount * reserve_b / total_supply;
    let swap_out = get_amount_out(share_a, reserve_a - share_a, reserve_b - share_b, 30);
    let expected_total = share_b + swap_out;
    assert_eq!(expected_total, 79_482_384);

    let result = pair.burn_single_side(lp_amount, &token_b(), 1, total_supply, 0);
    assert_eq!(result, Ok(expected_total));
}

#[test]
fn test_burn_single_side_k_invariant_holds() {
    let reserve = 1_000_000_000i128;
    let (mut pair, total_supply) = setup_pair(reserve, reserve);

    let total_out = pair.burn_single_side(10_000_000, &token_a(), 1, total_supply, 0).unwrap();

    let (res_a, res_b, _) = pair.get_reserves().unwrap();
    assert!(res_a > 0 && res_b > 0, "reserves must remain positive");
    assert_eq!(res_b, reserve, "unwanted reserve (token_b) must be unchanged");
    assert!(res_a < reserve, "preferred reserve must decrease");
    assert_eq!(res_a, reserve - total_out);
    let _k = res_a.checked_mul(res_b).expect("k must not overflow");
}

#[test]
fn test_burn_single_side_slippage_reverts() {
    let reserve = 1_000_000_000i128;
    let (mut pair, total_supply) = setup_pair(reserve, reserve);

    let lp_amount = 10_000_000i128;
    let share_a = lp_amount * reserve / total_supply;
    let share_b = lp_amount * reserve / total_supply;
    let swap_out = get_amount_out(share_b, reserve - share_b, reserve - share_a, 30);
    let actual_out = share_a + swap_out;

    let result = pair.burn_single_side(lp_amount, &token_a(), actual_out + 1, total_supply, 0);
    assert_eq!(result, Err(PairError::SlippageExceeded));
    // Nothing changed.
    assert_eq!(pair.get_reserves(), Ok((reserve, reserve, 0)));
}

#[test]
fn burn_single_side_rejects_bad_input() {
    let (mut pair, total_supply) = setup_pair(1_000_000, 1_000_000);
    assert_eq!(pair.burn_single_side(0, &token_a(), 1, total_supply, 0), Err(PairError::InvalidInput));
    assert_eq!(pair.burn_single_side(10, &token_a(), 0, total_supply, 0), Err(PairError::InvalidInput));
    assert_eq!(pair.burn_single_side(10, &address(9), 1, total_supply, 0), Err(PairError::InvalidInput));
    assert_eq!(pair.burn_single_side(10, &token_a(), 1, 0, 0), Err(PairError::InsufficientLiquidityBurned));
    // Too little LP to get a share of both tokens.
    assert_eq!(pair.burn_single_side(1, &token_a(), 1, 1_000_000_000_000, 0), Err(PairError::InsufficientLiquidityBurned));
    let mut fresh = Pair::new();
    assert_eq!(fresh.burn_single_side(10, &token_a(), 1, 10, 0), Err(PairError::NotInitialized));
}

#[test]
fn test_lp_supply_matches_expected_value_throughout() {
    // token_1-dominant initial deposit
    let deposit_0: i128 = 500_000_000;
    let deposit_1: i128 = 2_000_000_000;
    let mut pair = Pair::new();
    pair.initialize(address(1), token_a(), token_b(), address(4), 0).unwrap();
    let outcome = pair.mint(deposit_0, deposit_1, 0, 0).unwrap();
    let lp_minted = outcome.liquidity;

    // The LP supply is what the pair tells the LP token to mint: the locked
    // minimum to the pair itself on a first deposit, and the liquidity to
    // the provider.
    let locked = if outcome.locks_minimum { MINIMUM_LIQUIDITY } else { 0 };
    let total_supply = locked + lp_minted;
    let provider_balance = lp_minted;

    // geometric mean: sqrt(deposit_0 * deposit_1) - MINIMUM_LIQUIDITY (1000)
    let expected_liquidity = ((deposit_0 as f64 * deposit_1 as f64).sqrt() as i128) - 1000;
    assert!(
        (lp_minted - expected_liquidity).abs() <= 2,
        "LP minted {lp_minted} should be close to geometric mean {expected_liquidity}"
    );
    assert_eq!(provider_balance, lp_minted, "provider balance must equal minted");
    assert_eq!(total_supply, lp_minted + 1000, "total supply = minted + MINIMUM_LIQUIDITY");
    assert_eq!(pair.get_reserves(), Ok((deposit_0, deposit_1, 0)));
}

#[test]
fn swap_beyond_k_changes_nothing() {
    let (mut pair, _) = setup_pair(1_000_000_000, 2_000_000_000);
    let before = pair.get_reserves();
    // Asking for more than the K check allows fails and changes nothing.
    assert_eq!(pair.swap(0, 1_000_000, 1_000_000_001, 1_999_000_000, 14, None), Err(PairError::InvalidK));
    assert_eq!(pair.get_reserves(), before);
}

#[test]
fn full_pool_lifecycle() {
    let deposit_0: i128 = 1_000_000_000;
    let deposit_1: i128 = 2_000_000_000;
    let mut pair = Pair::new();
    pair.initialize(address(1), token_a(), token_b(), address(4), 10).unwrap();
    assert_eq!(
        pair.initialize(address(1), token_a(), token_b(), address(4), 10),
        Err(PairError::AlreadyInitialized)
    );
    assert_eq!(pair.get_reserves(), Ok((0, 0, 10)));

    // First deposit.
    let first = pair.mint(deposit_0, deposit_1, 0, 11).unwrap();
    assert_eq!(first.liquidity, sqrt(deposit_0 * deposit_1) - MINIMUM_LIQUIDITY);
    let mut supply = first.liquidity + MINIMUM_LIQUIDITY;
    assert_eq!(pair.get_reserves(), Ok((deposit_0, deposit_1, 11)));

    // Second deposit at the pool ratio.
    let second = pair.mint(deposit_0 + 500_000_000, deposit_1 + 1_000_000_000, supply, 12).unwrap();
    assert!(second.liquidity > 0);
    assert!(!second.locks_minimum);
    supply += second.liquidity;
    let (ra, rb, _) = pair.get_reserves().unwrap();
    assert_eq!((ra, rb), (1_500_000_000, 3_000_000_000));

    // Swap token A in for token B out, at the fee the pair reports now.
    let amount_in = 100_000_000i128;
    let fee_bps = pair.get_current_fee_bps() as i128;
    let expected_out = get_amount_out(amount_in, ra, rb, fee_bps);
    assert!(expected_out > 0, "expected swap output must be positive");
    let fee = pair.swap_check(0, expected_out, None).unwrap();
    assert_eq!(fee as i128, fee_bps);
    let outcome = pair.swap(0, expected_out, ra + amount_in, rb - expected_out, 13, None).unwrap();
    assert_eq!(outcome.amount_a_in, amount_in);
    let (ra2, rb2, _) = pair.get_reserves().unwrap();
    assert!(ra2 > ra, "reserve_a must increase after token_0 input");
    assert!(rb2 < rb, "reserve_b must decrease after token_1 output");
    assert!(ra2 * rb2 >= ra * rb, "K invariant must not decrease after swap");

    // Reverse swap: token B in, token A out, at the fee read after the first
    // swap updated the volatility.
    let amount_in_rev = 200_000_000i128;
    let fee_bps_rev = pair.get_current_fee_bps() as i128;
    let expected_out_rev = get_amount_out(amount_in_rev, rb2, ra2, fee_bps_rev);
    let outcome_rev = pair
        .swap(expected_out_rev, 0, ra2 - expected_out_rev, rb2 + amount_in_rev, 14, None)
        .unwrap();
    assert_eq!(outcome_rev.amount_b_in, amount_in_rev);
    assert_eq!(outcome_rev.amount_a_in, 0);
    assert_eq!(outcome_rev.fee_bps as i128, fee_bps_rev);
    let (ra3, rb3, _) = pair.get_reserves().unwrap();
    assert!(rb3 > rb2, "reserve_b must increase after token_1 input");
    assert!(ra3 < ra2, "reserve_a must decrease after token_0 output");
    let (ra2, rb2) = (ra3, rb3);

    // The provider sends all its LP to the pair, which also holds the locked
    // minimum; only what was sent is burned.
    let lp = supply - MINIMUM_LIQUIDITY;
    let pair_lp_balance = lp + MINIMUM_LIQUIDITY;
    let burned = pair.burn(pair_lp_balance, supply, 15).unwrap();
    assert_eq!(burned.lp_burned, lp);
    let (out_a, out_b) = (burned.amount_a, burned.amount_b);
    assert_eq!(out_a, lp * ra2 / supply);
    assert_eq!(out_b, lp * rb2 / supply);
    assert_eq!(pair.get_reserves(), Ok((ra2 - out_a, rb2 - out_b, 15)));
    assert!(out_a > 0 && out_b > 0);
}

#[test]
fn swap_errors() {
    let (mut pair, _) = setup_pair(1_000_000, 1_000_000);
    assert_eq!(pair.swap_check(0, 0, None), Err(PairError::InsufficientOutputAmount));
    assert_eq!(pair.swap_check(1_000_000, 0, None), Err(PairError::InsufficientLiquidity));
    // Nothing came in.
    assert_eq!(pair.swap(0, 5, 1_000_000, 999_995, 1, None), Err(PairError::InsufficientInputAmount));
    let mut fresh = Pair::new();
    assert_eq!(fresh.swap(0, 5, 1, 1, 1, None), Err(PairError::NotInitialized));
}

#[test]
fn mint_and_burn_errors() {
    let mut pair = Pair::new();
    assert_eq!(pair.mint(1, 1, 0, 0), Err(PairError::NotInitialized));
    pair.initialize(address(1), token_a(), token_b(), address(4), 0).unwrap();
    // sqrt(1000 * 1000) - 1000 = 0.
    assert_eq!(pair.mint(1_000, 1_000, 0, 0), Err(PairError::InsufficientLiquidityMinted));
    assert_eq!(pair.mint(i128::MAX, i128::MAX, 0, 0), Err(PairError::Overflow));
    assert_eq!(pair.burn(1, 0, 0), Err(PairError::InsufficientLiquidityBurned));
    assert_eq!(pair.get_reserves(), Ok((0, 0, 0)));
    // Only the locked minimum is held: nothing was sent to burn.
    pair.mint(1_000_000, 1_000_000, 0, 0).unwrap();
    assert_eq!(pair.burn(MINIMUM_LIQUIDITY, 1_000_000, 1), Err(PairError::InsufficientLiquidityBurned));
    assert_eq!(pair.get_reserves(), Ok((1_000_000, 1_000_000, 0)));
}

#[test]
fn identical_tokens_rejected_at_initialize() {
    let mut pair = Pair::new();
    assert_eq!(pair.initialize(address(1), token_a(), token_a(), address(4), 0), Err(PairError::InvalidInput));
    assert!(pair.pair_state.is_none());
}

#[test]
fn sync_sets_reserves_to_balances() {
    let (mut pair, _) = setup_pair(1_000_000, 1_000_000);
    pair.sync(1_200_000, 900_000, 44).unwrap();
    assert_eq!(pair.get_reserves(), Ok((1_200_000, 900_000, 44)));
    assert_eq!(pair.sync(i128::MAX, 2, 45), Err(PairError::Overflow));
    let mut fresh = Pair::new();
    assert_eq!(fresh.sync(1, 1, 1), Err(PairError::NotInitialized));
}

#[test]
fn single_side_exit_keeps_post_burn_product() {
    let reserve_a = 3_000_000_000i128;
    let reserve_b = 5_000_000_000i128;
    let (mut pair, total_supply) = setup_pair(reserve_a, reserve_b);
    let lp_amount = 250_000_000i128;
    let post_a = reserve_a - lp_amount * reserve_a / total_supply;
    let post_b = reserve_b - lp_amount * reserve_b / total_supply;

    pair.burn_single_side(lp_amount, &token_b(), 1, total_supply, 0).unwrap();

    let (res_a, res_b, _) = pair.get_reserves().unwrap();
    assert_eq!(res_a, reserve_a);
    assert!(res_b >= 0);
    assert!(res_a * res_b >= post_a * post_b);
}

#[test]
fn burn_keeps_the_locked_minimum() {
    let (mut pair, supply) = setup_pair(1_001_000, 1_001_000);
    assert_eq!(supply, 1_001_000);
    // The provider sends its 1_000_000 LP; the pair now holds 1_001_000.
    let burned = pair.burn(1_001_000, supply, 1).unwrap();
    assert_eq!(burned.lp_burned, 1_000_000);
    assert_eq!((burned.amount_a, burned.amount_b), (1_000_000, 1_000_000));
    assert_eq!(pair.get_reserves(), Ok((1_000, 1_000, 1)));
}
