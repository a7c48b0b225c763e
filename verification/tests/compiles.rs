use coralswap::errors::{FactoryError, LpTokenError, PairError, RouterError};

#[test]
fn test_contract_compiles() {
    // This test ensures the crate compiles successfully
    assert!(true);
}

#[test]
fn mod_test_contract_compiles() {
    // Crate compiles and links correctly
}

#[test]
fn error_codes_match_the_published_numbers() {
    assert_eq!(RouterError::Expired.code(), 300);
    assert_eq!(RouterError::TransactionExpired.code(), 310);
    assert_eq!(PairError::AlreadyInitialized.code(), 100);
    assert_eq!(PairError::SlippageExceeded.code(), 119);
    assert_eq!(LpTokenError::AlreadyInitialized.code(), 200);
    assert_eq!(LpTokenError::ContractPaused.code(), 206);
    assert_ne!(FactoryError::NoPendingUpgrade, FactoryError::UpgradeAlreadyPending);
}
