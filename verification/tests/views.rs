use coralswap::dynamic_fee::FeeState;
use coralswap::errors::PairError;
use coralswap::pair::{Pair, PairStorage};

fn address(tag: u8) -> Vec<u8> {
    vec![0u8, 0, 0, 18, 0, 0, 0, 1, tag, tag, tag, tag]
}

fn initialized_pair(timestamp: u64) -> Pair {
    let mut pair = Pair::new();
    pair.initialize(address(1), address(2), address(3), address(4), timestamp).unwrap();
    pair
}

#[test]
fn test_get_reserves_uninitialized_panics() {
    let _pair = Pair::new();
    // An uninitialized pair has no reserves to report; the initialized state
    // is exercised by the tests below.
}

#[test]
fn test_get_reserves_initialized() {
    let ledger_timestamp = 0u64;
    let pair = initialized_pair(ledger_timestamp);

    let (reserve_a, reserve_b, timestamp) = pair.get_reserves().unwrap();

    assert_eq!(reserve_a, 0);
    assert_eq!(reserve_b, 0);
    assert_eq!(timestamp, ledger_timestamp);
}

#[test]
fn test_get_current_fee_bps_uninitialized() {
    let pair = Pair::new();
    let fee = pair.get_current_fee_bps();
    assert_eq!(fee, 30);
}

#[test]
fn test_get_current_fee_bps_initialized_no_volatility() {
    let pair = initialized_pair(0);
    let fee = pair.get_current_fee_bps();
    assert_eq!(fee, 30);
}

#[test]
fn test_get_reserves_after_state_change() {
    let mut pair = Pair::new();
    pair.pair_state = Some(PairStorage {
        factory: address(1),
        token_a: address(2),
        token_b: address(3),
        lp_token: address(4),
        reserve_a: 1000,
        reserve_b: 2000,
        block_timestamp_last: 12345,
        price_a_cumulative: 0,
        price_b_cumulative: 0,
        k_last: 2000000,
    });

    let (res_a, res_b, ts) = pair.get_reserves().unwrap();
    assert_eq!(res_a, 1000);
    assert_eq!(res_b, 2000);
    assert_eq!(ts, 12345);
}

#[test]
fn test_get_current_fee_bps_with_state() {
    let mut pair = Pair::new();
    pair.fee_state = Some(FeeState {
        vol_accumulator: 1_000_000_000_000,
        ema_alpha: 5_000_000_000_000,
        baseline_fee_bps: 30,
        min_fee_bps: 5,
        max_fee_bps: 100,
        ramp_up_multiplier: 2,
        cooldown_divisor: 2,
        last_fee_update: 0,
        decay_threshold_blocks: 100,
    });

    // fee = 30 + (1e12 * 2) / 1e10 = 230 -> clamped to 100
    let fee = pair.get_current_fee_bps();
    assert_eq!(fee, 100);
}

#[test]
fn views_of_an_uninitialized_pair_report_not_initialized() {
    let pair = Pair::new();
    assert_eq!(pair.get_reserves(), Err(PairError::NotInitialized));
    assert_eq!(pair.lp_token(), Err(PairError::NotInitialized));
    let pair = initialized_pair(5);
    assert_eq!(pair.lp_token(), Ok(address(4)));
}
