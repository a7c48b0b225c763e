use coralswap::dynamic_fee::{compute_fee_bps, ema_is_stale, update_volatility, FeeState, SCALE};
use coralswap::errors::PairError;

/// The ledger timestamp of a fresh test environment.
const LEDGER_TIMESTAMP: u64 = 0;

fn default_fee_state(alpha: i128) -> FeeState {
    FeeState {
        vol_accumulator: 0,
        ema_alpha: alpha,
        baseline_fee_bps: 30,
        min_fee_bps: 5,
        max_fee_bps: 100,
        ramp_up_multiplier: 2,
        cooldown_divisor: 2,
        last_fee_update: 0,
        decay_threshold_blocks: 100,
    }
}

#[test]
fn large_trade_produces_larger_update_than_small_trade() {
    let alpha = SCALE / 10;
    let total_reserve = 1_000_000;
    let price_delta = 500;

    let mut state_small = default_fee_state(alpha);
    update_volatility(&mut state_small, price_delta, 1_000, total_reserve, LEDGER_TIMESTAMP).unwrap();

    let mut state_large = default_fee_state(alpha);
    update_volatility(&mut state_large, price_delta, 100_000, total_reserve, LEDGER_TIMESTAMP).unwrap();

    assert!(
        state_large.vol_accumulator > state_small.vol_accumulator,
        "large trade ({}) must move accumulator more than small trade ({})",
        state_large.vol_accumulator,
        state_small.vol_accumulator,
    );
}

#[test]
fn ema_smooths_observations_towards_steady_state() {
    let alpha = SCALE / 10;
    let total_reserve = 1_000_000;
    let trade_size = 100_000;
    let price_delta = 1_000;
    let mut state = default_fee_state(alpha);

    let mut prev = 0i128;
    for _ in 0..200 {
        update_volatility(&mut state, price_delta, trade_size, total_reserve, LEDGER_TIMESTAMP).unwrap();
        assert!(
            state.vol_accumulator >= prev,
            "accumulator should be non-decreasing under constant positive input"
        );
        prev = state.vol_accumulator;
    }

    let theoretical = 100i128;
    assert!(
        state.vol_accumulator > theoretical * 9 / 10 && state.vol_accumulator <= theoretical,
        "accumulator {} should converge to ~{} (within 10%)",
        state.vol_accumulator,
        theoretical,
    );
}

#[test]
fn alpha_controls_responsiveness() {
    let total_reserve = 1_000_000;
    let trade_size = 100_000;
    let price_delta = 1_000;

    let mut fast = default_fee_state(SCALE / 2);
    let mut slow = default_fee_state(SCALE / 20);

    update_volatility(&mut fast, price_delta, trade_size, total_reserve, LEDGER_TIMESTAMP).unwrap();
    update_volatility(&mut slow, price_delta, trade_size, total_reserve, LEDGER_TIMESTAMP).unwrap();

    assert!(
        fast.vol_accumulator > slow.vol_accumulator,
        "fast alpha ({}) should yield larger first update than slow alpha ({})",
        fast.vol_accumulator,
        slow.vol_accumulator,
    );
}

#[test]
fn zero_price_delta_does_not_increase_volatility() {
    let alpha = SCALE / 10;
    let mut state = default_fee_state(alpha);
    state.vol_accumulator = 500;

    update_volatility(&mut state, 0, 100_000, 1_000_000, LEDGER_TIMESTAMP).unwrap();

    assert!(
        state.vol_accumulator <= 500,
        "accumulator should not increase on zero delta, got {}",
        state.vol_accumulator,
    );
}

#[test]
fn timestamp_is_updated_after_call() {
    let mut state = default_fee_state(SCALE / 10);
    assert_eq!(state.last_fee_update, 0);

    update_volatility(&mut state, 100, 1_000, 1_000_000, LEDGER_TIMESTAMP).unwrap();

    assert_eq!(state.last_fee_update, LEDGER_TIMESTAMP);
}

#[test]
fn overflow_on_huge_price_delta_returns_error() {
    let mut state = default_fee_state(SCALE / 10);
    let result = update_volatility(&mut state, i128::MAX / 2, i128::MAX / 2, 1, LEDGER_TIMESTAMP);
    assert_eq!(result, Err(PairError::Overflow));
}

#[test]
fn overflow_on_huge_trade_size_returns_error() {
    let mut state = default_fee_state(SCALE / 10);
    let result = update_volatility(&mut state, 100, i128::MAX, 1, LEDGER_TIMESTAMP);
    assert_eq!(result, Err(PairError::Overflow));
}

#[test]
fn negative_price_delta_returns_error() {
    let mut state = default_fee_state(SCALE / 10);
    let result = update_volatility(&mut state, -1, 1_000, 1_000_000, LEDGER_TIMESTAMP);
    assert_eq!(result, Err(PairError::InvalidInput));
}

#[test]
fn zero_trade_size_returns_error() {
    let mut state = default_fee_state(SCALE / 10);
    let result = update_volatility(&mut state, 100, 0, 1_000_000, LEDGER_TIMESTAMP);
    assert_eq!(result, Err(PairError::InvalidInput));
}

#[test]
fn zero_total_reserve_returns_error() {
    let mut state = default_fee_state(SCALE / 10);
    let result = update_volatility(&mut state, 100, 1_000, 0, LEDGER_TIMESTAMP);
    assert_eq!(result, Err(PairError::InvalidInput));
}

#[test]
fn vol_accumulator_capped_at_max_fee_level() {
    let alpha = SCALE;
    let mut state = default_fee_state(alpha);

    for _ in 0..100 {
        update_volatility(&mut state, 1_000_000, 1_000_000, 1_000_000, LEDGER_TIMESTAMP).unwrap();
    }

    let fee = compute_fee_bps(&state);
    assert!(fee <= state.max_fee_bps, "fee {} must not exceed max_fee_bps {}", fee, state.max_fee_bps);
}

#[test]
fn alpha_above_scale_returns_error() {
    let mut state = default_fee_state(SCALE + 1);
    let result = update_volatility(&mut state, 100, 1_000, 1_000_000, LEDGER_TIMESTAMP);
    assert_eq!(result, Err(PairError::InvalidEmaAlpha));
}

#[test]
fn negative_alpha_returns_error() {
    let mut state = default_fee_state(-1);
    let result = update_volatility(&mut state, 100, 1_000, 1_000_000, LEDGER_TIMESTAMP);
    assert_eq!(result, Err(PairError::InvalidEmaAlpha));
}

#[test]
fn alpha_zero_means_no_update() {
    let mut state = default_fee_state(0);
    state.vol_accumulator = 500;

    update_volatility(&mut state, 1_000, 100_000, 1_000_000, LEDGER_TIMESTAMP).unwrap();

    assert_eq!(state.vol_accumulator, 500);
}

#[test]
fn alpha_scale_means_full_replace() {
    let mut state = default_fee_state(SCALE);
    state.vol_accumulator = 999_999;

    update_volatility(&mut state, 1_000, 100_000, 1_000_000, LEDGER_TIMESTAMP).unwrap();

    assert_eq!(
        state.vol_accumulator, 100,
        "alpha=SCALE should fully replace old accumulator with new observation"
    );
}

// ------ Further cases ------------------------------------------------------

#[test]
fn fee_formula_exact_values() {
    let mut state = default_fee_state(SCALE / 10);
    // Zero volatility: the baseline.
    assert_eq!(compute_fee_bps(&state), 30);
    // 5e10 * 2 / 1e10 = 10 bps above the baseline.
    state.vol_accumulator = 50_000_000_000;
    assert_eq!(compute_fee_bps(&state), 40);
    // Clamped to the maximum.
    state.vol_accumulator = 1_000_000_000_000;
    assert_eq!(compute_fee_bps(&state), 100);
    // Negative volatility pulls the fee down to the minimum.
    state.vol_accumulator = -1_000_000_000_000;
    assert_eq!(compute_fee_bps(&state), 5);
    // A baseline below the minimum is clamped up.
    state.vol_accumulator = 0;
    state.baseline_fee_bps = 1;
    assert_eq!(compute_fee_bps(&state), 5);
}

#[test]
fn fee_saturates_instead_of_overflowing() {
    let mut state = default_fee_state(SCALE / 10);
    state.vol_accumulator = i128::MAX;
    state.ramp_up_multiplier = u32::MAX;
    assert_eq!(compute_fee_bps(&state), 100);
    state.vol_accumulator = i128::MIN;
    assert_eq!(compute_fee_bps(&state), 5);
}

#[test]
fn update_exact_value_and_cap() {
    // observation = 1000 * (100_000 * 1e14 / 1_000_000) / 1e14 = 100;
    // accumulator = (0.1 * 100 + 0.9 * 0) = 10.
    let mut state = default_fee_state(SCALE / 10);
    update_volatility(&mut state, 1_000, 100_000, 1_000_000, 7).unwrap();
    assert_eq!(state.vol_accumulator, 10);
    assert_eq!(state.last_fee_update, 7);
    // The cap: (100 - 30) * 1e10 / 2 = 3.5e11.
    let mut capped = default_fee_state(SCALE);
    update_volatility(&mut capped, i128::MAX / SCALE, 1_000_000, 1_000_000, 0).unwrap();
    assert_eq!(capped.vol_accumulator, 350_000_000_000);
    assert_eq!(compute_fee_bps(&capped), 100);
}

#[test]
fn failed_update_leaves_state_unchanged() {
    let mut state = default_fee_state(SCALE / 10);
    state.vol_accumulator = 42;
    state.last_fee_update = 9;
    let before = state;
    assert_eq!(update_volatility(&mut state, -5, 1, 1, 100), Err(PairError::InvalidInput));
    assert_eq!(state, before);
}

#[test]
fn stale_ema_threshold() {
    let mut state = default_fee_state(SCALE / 10);
    state.last_fee_update = 50;
    assert!(!ema_is_stale(&state, 150));
    assert!(ema_is_stale(&state, 151));
}
