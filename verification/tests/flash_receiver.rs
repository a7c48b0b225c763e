use coralswap::flash_receiver::{FlashRepayment, MaliciousFlashReceiver, MockFlashReceiver, ReentryAttempt};

#[test]
fn honest_receiver_repays_principal_and_fee() {
    let repay = b"repay".to_vec();
    assert_eq!(
        MockFlashReceiver::on_flash_loan(&repay, 10_000, 0, 30, 0),
        FlashRepayment { repay_a: Some(10_030), repay_b: None }
    );
    assert_eq!(
        MockFlashReceiver::on_flash_loan(&repay, 5, 7, 1, 2),
        FlashRepayment { repay_a: Some(6), repay_b: Some(9) }
    );
}

#[test]
fn honest_receiver_withholds_otherwise() {
    let steal = b"steal".to_vec();
    assert_eq!(
        MockFlashReceiver::on_flash_loan(&steal, 10_000, 10_000, 30, 30),
        FlashRepayment { repay_a: None, repay_b: None }
    );
}

#[test]
fn malicious_receiver_attacks() {
    match MaliciousFlashReceiver::on_flash_loan(&b"attack_swap".to_vec(), 10_000, 0) {
        ReentryAttempt::Swap { amount_a_out, amount_b_out } => assert_eq!((amount_a_out, amount_b_out), (0, 1)),
        _ => panic!("expected a swap re-entry"),
    }
    match MaliciousFlashReceiver::on_flash_loan(&b"attack_flash".to_vec(), 10_000, 0) {
        ReentryAttempt::FlashLoan { amount_a, amount_b, data } => {
            assert_eq!((amount_a, amount_b), (10_000, 0));
            assert_eq!(data, b"nested".to_vec());
        },
        _ => panic!("expected a nested flash loan"),
    }
    assert!(matches!(MaliciousFlashReceiver::on_flash_loan(&b"other".to_vec(), 1, 1), ReentryAttempt::Nothing));
}
