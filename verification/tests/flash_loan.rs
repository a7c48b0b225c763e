use coralswap::errors::PairError;
use coralswap::flash_loan::compute_flash_fee;

#[test]
fn test_compute_flash_fee_overflow_returns_error() {
    let result = compute_flash_fee(i128::MAX, 30);
    assert_eq!(result, Err(PairError::FeeOverflow));
}

#[test]
fn test_compute_flash_fee_normal_amount() {
    let result = compute_flash_fee(10_000, 30);
    assert!(result.is_ok());
    assert!(result.unwrap() > 0);
}

#[test]
fn test_compute_flash_fee_cap_boundary_valid() {
    let result = compute_flash_fee(10_000, 10_000);
    assert!(result.is_ok());
    assert_eq!(result.unwrap(), 10_000);
}

#[test]
fn test_compute_flash_fee_cap_boundary_invalid() {
    let result = compute_flash_fee(10_000, 10_001);
    assert_eq!(result, Err(PairError::FlashLoanFeeTooHigh));
}

#[test]
fn test_compute_flash_fee_excessive_fee() {
    let result = compute_flash_fee(10_000, 15_000);
    assert_eq!(result, Err(PairError::FlashLoanFeeTooHigh));
}

#[test]
fn flash_fee_exact_value_rounds_toward_zero() {
    assert_eq!(compute_flash_fee(10_000, 30), Ok(30));
    assert_eq!(compute_flash_fee(999, 30), Ok(2));
    assert_eq!(compute_flash_fee(-999, 30), Ok(-2));
    assert_eq!(compute_flash_fee(0, 10_000), Ok(0));
}

#[test]
fn flash_fee_never_exceeds_loan() {
    for amount in [0i128, 1, 7, 10_000, 1_000_000_007] {
        for fee in [0u32, 1, 30, 9_999, 10_000] {
            let f = compute_flash_fee(amount, fee).unwrap();
            assert!(0 <= f && f <= amount);
        }
    }
}
