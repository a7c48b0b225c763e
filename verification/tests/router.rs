use coralswap::errors::RouterError;
use coralswap::helpers::{get_amount_in, get_amount_out, PoolQuote};
use coralswap::router::{check_removed_amounts, exact_in_step, hop_outputs, Router};

/// The ledger sequence of a fresh test environment.
const LEDGER_SEQUENCE: u32 = 0;

fn token(tag: u8) -> Vec<u8> {
    vec![0u8, 0, 0, 18, 0, 0, 0, 1, tag, tag, tag, tag]
}

fn deploy_router() -> Router {
    let mut router = Router::new();
    router.initialize(token(200), Vec::new());
    router
}

fn generate_tokens(n: u8) -> Vec<Vec<u8>> {
    (0..n).map(|i| token(i + 1)).collect()
}

#[test]
fn test_swap_exact_out_expired_deadline() {
    let router = deploy_router();
    let path = generate_tokens(2);
    // The factory knows no pair for these tokens.
    let pools = vec![None];

    let result = router.swap_tokens_for_exact_tokens(LEDGER_SEQUENCE, 100, 1000, &path, 1, &pools);
    assert!(result.is_err(), "expired deadline must fail");
}

#[test]
fn test_swap_exact_out_zero_amount() {
    let router = deploy_router();
    let path = generate_tokens(2);
    let pools = vec![None];

    let result = router.swap_tokens_for_exact_tokens(LEDGER_SEQUENCE, 0, 1000, &path, u64::MAX, &pools);
    assert!(result.is_err(), "zero output amount must fail");
}

#[test]
fn test_swap_exact_out_invalid_path() {
    let router = deploy_router();
    let path = vec![token(1)];
    let pools = vec![];

    let result = router.swap_tokens_for_exact_tokens(LEDGER_SEQUENCE, 100, 1000, &path, u64::MAX, &pools);
    assert!(result.is_err(), "too-short path must fail");
}

// ------ Further cases ------------------------------------------------------

fn balanced(reserve: i128) -> Option<PoolQuote> {
    Some(PoolQuote { reserve_a: reserve, reserve_b: reserve, fee_bps: 30 })
}

#[test]
fn exact_in_error_order() {
    let router = deploy_router();
    let path = generate_tokens(2);
    let pools = vec![balanced(100_000)];
    assert_eq!(router.swap_exact_tokens_for_tokens(5, 1000, 1, &path, 4, &pools), Err(RouterError::TransactionExpired));
    // The deadline is compared as a 32-bit sequence number.
    assert_eq!(
        router.swap_exact_tokens_for_tokens(5, 1000, 1, &path, (1u64 << 32) + 4, &pools),
        Err(RouterError::TransactionExpired)
    );
    assert_eq!(router.swap_exact_tokens_for_tokens(0, 0, 1, &path, 10, &pools), Err(RouterError::ZeroAmount));
    assert_eq!(router.swap_exact_tokens_for_tokens(0, 1000, 1, &vec![token(1)], 10, &vec![]), Err(RouterError::InvalidPath));
    let unset = Router::new();
    assert_eq!(unset.swap_exact_tokens_for_tokens(0, 1000, 1, &path, 10, &pools), Err(RouterError::PairNotFound));
    assert_eq!(router.swap_exact_tokens_for_tokens(0, 1000, 1, &path, 10, &vec![None]), Err(RouterError::PairNotFound));
    assert_eq!(router.swap_exact_tokens_for_tokens(0, 1000, 10_000, &path, 10, &pools), Err(RouterError::SlippageExceeded));
}

#[test]
fn exact_in_multi_hop_amounts() {
    let router = deploy_router();
    let path = generate_tokens(3);
    let pools = vec![balanced(100_000), balanced(200_000)];
    let amounts = router.swap_exact_tokens_for_tokens(0, 1000, 1, &path, 10, &pools).unwrap();
    let hop1 = get_amount_out(1000, 100_000, 100_000, 30).unwrap();
    let hop2 = get_amount_out(hop1, 200_000, 200_000, 30).unwrap();
    assert_eq!(amounts, vec![1000, hop1, hop2]);
    // An intermediate hop whose next pair is missing.
    assert_eq!(
        router.swap_exact_tokens_for_tokens(0, 1000, 1, &path, 10, &vec![balanced(100_000), None]),
        Err(RouterError::PairNotFound)
    );
}

#[test]
fn exact_in_orients_reserves_by_token_order() {
    let router = deploy_router();
    // token(1) sorts before token(2): the pool's first reserve is the input's.
    let pools = vec![Some(PoolQuote { reserve_a: 100_000, reserve_b: 400_000, fee_bps: 30 })];
    let forward = router.swap_exact_tokens_for_tokens(0, 1000, 1, &vec![token(1), token(2)], 10, &pools).unwrap();
    assert_eq!(forward[1], get_amount_out(1000, 100_000, 400_000, 30).unwrap());
    let backward = router.swap_exact_tokens_for_tokens(0, 1000, 1, &vec![token(2), token(1)], 10, &pools).unwrap();
    assert_eq!(backward[1], get_amount_out(1000, 400_000, 100_000, 30).unwrap());
    assert_eq!(hop_outputs(&token(1), &token(2), 7), (0, 7));
    assert_eq!(hop_outputs(&token(2), &token(1), 7), (7, 0));
}

#[test]
fn identical_consecutive_tokens_rejected() {
    let router = deploy_router();
    let path = vec![token(1), token(1)];
    let pools = vec![balanced(100_000)];
    assert_eq!(router.swap_exact_tokens_for_tokens(0, 1000, 1, &path, 10, &pools), Err(RouterError::IdenticalTokens));
    assert_eq!(router.swap_tokens_for_exact_tokens(0, 10, 1000, &path, 10, &pools), Err(RouterError::IdenticalTokens));
}

#[test]
fn exact_out_amounts_and_limits() {
    let router = deploy_router();
    let path = generate_tokens(3);
    let pools = vec![balanced(100_000), balanced(200_000)];
    let amounts = router.swap_tokens_for_exact_tokens(0, 900, 10_000, &path, 10, &pools).unwrap();
    let mid = get_amount_in(900, 200_000, 200_000, 30).unwrap();
    let first = get_amount_in(mid, 100_000, 100_000, 30).unwrap();
    assert_eq!(amounts, vec![first, mid, 900]);
    // Each hop's input buys at least what the next hop needs.
    assert!(get_amount_out(first, 100_000, 100_000, 30).unwrap() >= mid);
    assert!(get_amount_out(mid, 200_000, 200_000, 30).unwrap() >= 900);
    assert_eq!(
        router.swap_tokens_for_exact_tokens(0, 900, first - 1, &path, 10, &pools),
        Err(RouterError::ExcessiveInputAmount)
    );
    assert_eq!(
        router.swap_tokens_for_exact_tokens(0, 200_000, u64::MAX as i128, &path, 10, &pools),
        Err(RouterError::InsufficientLiquidity)
    );
}

#[test]
fn add_liquidity_checks_and_amounts() {
    let router = deploy_router();
    let (a, b) = (token(1), token(2));
    assert_eq!(router.add_liquidity(100, &a, &b, 10, 10, 0, 0, 99, Some((1, 1))), Err(RouterError::Expired));
    assert_eq!(router.add_liquidity(100, &a, &b, 0, 10, 0, 0, 100, Some((1, 1))), Err(RouterError::ZeroAmount));
    assert_eq!(router.add_liquidity(100, &a, &a, 10, 10, 0, 0, 100, Some((1, 1))), Err(RouterError::IdenticalTokens));
    assert_eq!(router.add_liquidity(100, &a, &b, 10, 10, 0, 0, 100, None), Err(RouterError::PairNotFound));
    assert_eq!(router.add_liquidity(100, &a, &b, 100, 300, 0, 0, 100, Some((1000, 2000))), Ok((100, 200)));
    assert_eq!(router.add_liquidity(100, &a, &b, 100, 300, 0, 0, 100, Some((0, 0))), Ok((100, 300)));
}

#[test]
fn remove_liquidity_checks() {
    let router = deploy_router();
    let (a, b) = (token(1), token(2));
    assert_eq!(router.remove_liquidity(100, &a, &b, 10, 99, true), Err(RouterError::Expired));
    assert_eq!(router.remove_liquidity(100, &a, &b, 0, 100, true), Err(RouterError::ZeroAmount));
    assert_eq!(router.remove_liquidity(100, &a, &a, 10, 100, true), Err(RouterError::IdenticalTokens));
    assert_eq!(router.remove_liquidity(100, &a, &b, 10, 100, false), Err(RouterError::PairNotFound));
    assert_eq!(Router::new().remove_liquidity(100, &a, &b, 10, 100, true), Err(RouterError::PairNotFound));
    assert_eq!(router.remove_liquidity(100, &a, &b, 10, 100, true), Ok(()));
    assert_eq!(check_removed_amounts(10, 20, 10, 21), Err(RouterError::InsufficientOutputAmount));
    assert_eq!(check_removed_amounts(10, 20, 10, 20), Ok((10, 20)));
}

#[test]
fn initialize_records_factory_and_hubs() {
    let mut router = Router::new();
    let hubs = vec![token(7), token(8)];
    router.initialize(token(200), hubs.clone());
    assert_eq!(router.get_factory(), Some(token(200)));
    assert_eq!(router.get_hubs(), hubs);
    router.set_hubs(vec![token(9)]);
    assert_eq!(router.get_hubs(), vec![token(9)]);
    assert_eq!(router.get_factory(), Some(token(200)));
}

#[test]
fn exact_in_steps_read_each_hop_when_taken() {
    let router = deploy_router();
    let path = vec![token(1), token(2), token(1)];
    assert_eq!(router.exact_in_start(LEDGER_SEQUENCE, 1_000, &path, u64::MAX), Ok(()));
    // Hop 0 on the pool as it stands.
    let first = exact_in_step(&path, 0, 1_000, balanced(1_000_000), true, 1).unwrap();
    assert_eq!(first, get_amount_out(1_000, 1_000_000, 1_000_000, 30).unwrap());
    // Hop 1 goes back through the same pair, read after hop 0's swap.
    let after = Some(PoolQuote { reserve_a: 1_001_000, reserve_b: 1_000_000 - first, fee_bps: 30 });
    let second = exact_in_step(&path, 1, first, after, true, 1).unwrap();
    assert_eq!(second, get_amount_out(first, 1_000_000 - first, 1_001_000, 30).unwrap());
    // A missing next pair stops an intermediate hop.
    assert_eq!(exact_in_step(&path, 0, 1_000, balanced(1_000_000), false, 1), Err(RouterError::PairNotFound));
}
