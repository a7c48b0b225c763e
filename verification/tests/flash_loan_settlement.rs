use coralswap::errors::PairError;
use coralswap::flash_loan::compute_flash_fee;
use coralswap::flash_receiver::{MaliciousFlashReceiver, MockFlashReceiver, ReentryAttempt};
use coralswap::pair::Pair;

fn address(tag: u8) -> Vec<u8> {
    vec![0u8, 0, 0, 18, 0, 0, 0, 1, tag, tag, tag, tag]
}

/// A pair whose token balances were synced to `amount` each.
fn funded_pair(amount: i128) -> Pair {
    let mut pair = Pair::new();
    pair.initialize(address(1), address(2), address(3), address(4), 0).unwrap();
    pair.sync(amount, amount, 0).unwrap();
    pair
}

#[test]
fn flash_loan_honest_receiver_repays() {
    let initial_reserve = 1_000_000_i128;
    let mut pair = funded_pair(initial_reserve);

    let loan_amount = 10_000_i128;
    let fee = compute_flash_fee(loan_amount, 30).unwrap();

    let (fee_a, fee_b) = pair.flash_loan_begin(loan_amount, 0).unwrap();
    assert_eq!((fee_a, fee_b), (fee, 0));
    assert!(pair.reentrancy_guard.locked);

    // The receiver was given the fee beforehand and repays principal + fee.
    let repayment = MockFlashReceiver::on_flash_loan(&b"repay".to_vec(), loan_amount, 0, fee_a, fee_b);
    assert_eq!(repayment.repay_a, Some(loan_amount + fee));
    assert_eq!(repayment.repay_b, None);
    let balance_a = initial_reserve - loan_amount + repayment.repay_a.unwrap();
    pair.flash_loan_settle(balance_a, initial_reserve, fee_a, fee_b, 1).unwrap();

    let (res_a, res_b, _) = pair.get_reserves().unwrap();
    assert_eq!(res_a, initial_reserve + fee);
    assert_eq!(res_b, initial_reserve);
    assert!(!pair.reentrancy_guard.locked);
}

#[test]
fn flash_loan_reentrancy_swap_attack_reverts() {
    let mut pair = funded_pair(1_000_000);
    pair.flash_loan_begin(10_000, 0).unwrap();

    let attack = MaliciousFlashReceiver::on_flash_loan(&b"attack_swap".to_vec(), 10_000, 0);
    assert!(matches!(attack, ReentryAttempt::Swap { amount_a_out: 0, amount_b_out: 1 }));
    // The swap's entry finds the lock held.
    assert_eq!(pair.reentrancy_guard.acquire(), Err(PairError::Locked));
}

#[test]
fn flash_loan_reentrancy_nested_flash_attack_reverts() {
    let mut pair = funded_pair(1_000_000);
    pair.flash_loan_begin(10_000, 0).unwrap();

    let attack = MaliciousFlashReceiver::on_flash_loan(&b"attack_flash".to_vec(), 10_000, 0);
    match attack {
        ReentryAttempt::FlashLoan { amount_a, amount_b, .. } => {
            assert_eq!(pair.flash_loan_begin(amount_a, amount_b), Err(PairError::Locked));
        }
        _ => panic!("expected a nested flash loan"),
    }
}

#[test]
fn flash_loan_not_repaid_is_refused() {
    let mut pair = funded_pair(1_000_000);
    let (fee_a, fee_b) = pair.flash_loan_begin(10_000, 0).unwrap();
    // The receiver kept the loan ("steal").
    let repayment = MockFlashReceiver::on_flash_loan(&b"steal".to_vec(), 10_000, 0, fee_a, fee_b);
    assert_eq!(repayment.repay_a, None);
    let before = pair.get_reserves();
    assert_eq!(pair.flash_loan_settle(990_000, 1_000_000, fee_a, fee_b, 1), Err(PairError::FlashLoanNotRepaid));
    assert_eq!(pair.get_reserves(), before);
    assert!(pair.reentrancy_guard.locked);
    // Repaying the principal without the fee is refused too.
    assert_eq!(pair.flash_loan_settle(1_000_000, 1_000_000, fee_a, fee_b, 1), Err(PairError::FlashLoanNotRepaid));
}

#[test]
fn flash_loan_begin_errors() {
    let mut fresh = Pair::new();
    assert_eq!(fresh.flash_loan_begin(1, 0), Err(PairError::NotInitialized));
    let mut pair = funded_pair(1_000_000);
    assert_eq!(pair.flash_loan_begin(-1, 0), Err(PairError::InvalidInput));
    assert_eq!(pair.flash_loan_begin(1_000_000, 0), Err(PairError::InsufficientLiquidity));
    assert_eq!(pair.flash_loan_begin(0, 2_000_000), Err(PairError::InsufficientLiquidity));
    assert!(!pair.reentrancy_guard.locked);
    assert_eq!(pair.flash_loan_begin(999_999, 0), Ok((2_999, 0)));
}
