use coralswap::pair::Pair;

struct Harness {
    pair: Pair,
    balance_a: i128,
    balance_b: i128,
}

fn address(tag: u8) -> Vec<u8> {
    vec![0u8, 0, 0, 18, 0, 0, 0, 1, tag, tag, tag, tag]
}

/// A pair funded with 1_000_000 of each token by a first deposit.
fn setup_harness() -> Harness {
    let mut pair = Pair::new();
    pair.initialize(address(1), address(2), address(3), address(4), 0).unwrap();
    let minted = pair.mint(1_000_000, 1_000_000, 0, 0).unwrap();
    assert_eq!(minted.liquidity, 999_000);
    Harness { pair, balance_a: 1_000_000, balance_b: 1_000_000 }
}

/// A user sends 10_000 of token A and asks for 5_000 of token B, with the
/// factory answering `fee_override`; returns the fee charged.
fn swap_a_for_b(h: &mut Harness, fee_override: Option<u32>) -> u32 {
    h.balance_a += 10_000;
    let fee = h.pair.swap_check(0, 5_000, fee_override).unwrap();
    h.balance_b -= 5_000;
    let outcome = h.pair.swap(0, 5_000, h.balance_a, h.balance_b, 0, fee_override).unwrap();
    assert_eq!(outcome.amount_a_in, 10_000);
    assert_eq!(outcome.amount_b_in, 0);
    assert_eq!(outcome.fee_bps, fee);
    fee
}

#[test]
fn swap_succeeds_with_override_set() {
    let mut h = setup_harness();
    // The factory has an override of 5 bps installed for this pair.
    let fee = swap_a_for_b(&mut h, Some(5));
    assert_eq!(fee, 5, "the override replaces the dynamic fee");
}

#[test]
fn swap_uses_dynamic_fee_when_no_override() {
    let mut h = setup_harness();
    let charged = swap_a_for_b(&mut h, None);
    assert_eq!(charged, 30);

    let fee = h.pair.get_current_fee_bps();
    assert_eq!(fee, 30, "no override set: dynamic fee must stay at baseline");
}

#[test]
fn swap_with_override_does_not_panic_even_when_factory_missing() {
    let mut h = setup_harness();
    // A factory that cannot be reached yields no override.
    let charged = swap_a_for_b(&mut h, None);
    assert_eq!(charged, 30);

    let fee = h.pair.get_current_fee_bps();
    assert_eq!(fee, 30, "must fall back to dynamic fee when factory unavailable");
}

#[test]
fn override_is_charged_in_the_k_check() {
    // With a 100% override the input counts for nothing, so any payout fails K.
    let mut h = setup_harness();
    h.balance_a += 10_000;
    h.balance_b -= 5_000;
    let r = h.pair.swap(0, 5_000, h.balance_a, h.balance_b, 0, Some(10_000));
    assert_eq!(r, Err(coralswap::errors::PairError::InvalidK));
}
