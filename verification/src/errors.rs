//! Error codes shared by the router, the pair, the LP token and the factory.
use vstd::prelude::*;

verus! {

/// Errors returned by the router.
#[derive(Clone, Copy, Debug, PartialEq, Eq, Structural, PartialOrd, Ord)]
pub enum RouterError {
    Expired,
    InsufficientOutputAmount,
    ExcessiveInputAmount,
    InvalidPath,
    PairNotFound,
    IdenticalTokens,
    ZeroAmount,
    InsufficientLiquidity,
    SlippageExceeded,
    InternalError,
    TransactionExpired,
}

impl RouterError {
    /// The numeric code under which the error is reported to callers.
    pub fn code(&self) -> (c: u32)
        ensures
            300 <= c <= 310,
            c == 300 <==> *self == RouterError::Expired,
            c == 301 <==> *self == RouterError::InsufficientOutputAmount,
            c == 302 <==> *self == RouterError::ExcessiveInputAmount,
            c == 303 <==> *self == RouterError::InvalidPath,
            c == 304 <==> *self == RouterError::PairNotFound,
            c == 305 <==> *self == RouterError::IdenticalTokens,
            c == 306 <==> *self == RouterError::ZeroAmount,
            c == 307 <==> *self == RouterError::InsufficientLiquidity,
            c == 308 <==> *self == RouterError::SlippageExceeded,
            c == 309 <==> *self == RouterError::InternalError,
            c == 310 <==> *self == RouterError::TransactionExpired,
    {
        match self {
            RouterError::Expired => 300,
            RouterError::InsufficientOutputAmount => 301,
            RouterError::ExcessiveInputAmount => 302,
            RouterError::InvalidPath => 303,
            RouterError::PairNotFound => 304,
            RouterError::IdenticalTokens => 305,
            RouterError::ZeroAmount => 306,
            RouterError::InsufficientLiquidity => 307,
            RouterError::SlippageExceeded => 308,
            RouterError::InternalError => 309,
            RouterError::TransactionExpired => 310,
        }
    }
}

/// Errors returned by a pair.
#[derive(Clone, Copy, Debug, PartialEq, Eq, Structural, PartialOrd, Ord)]
pub enum PairError {
    AlreadyInitialized,
    NotInitialized,
    InsufficientLiquidity,
    InsufficientInputAmount,
    InsufficientOutputAmount,
    InvalidK,
    Locked,
    FlashLoanNotRepaid,
    FlashPayloadTooLarge,
    Paused,
    Overflow,
    ZeroAddress,
    InsufficientLiquidityMinted,
    InsufficientLiquidityBurned,
    InvalidInput,
    InvalidEmaAlpha,
    FeeOverflow,
    FlashCallbackFailed,
    FlashLoanFeeTooHigh,
    SlippageExceeded,
}

impl PairError {
    /// The numeric code under which the error is reported to callers.
    pub fn code(&self) -> (c: u32)
        ensures
            100 <= c <= 119,
            c == 100 <==> *self == PairError::AlreadyInitialized,
            c == 101 <==> *self == PairError::NotInitialized,
            c == 102 <==> *self == PairError::InsufficientLiquidity,
            c == 103 <==> *self == PairError::InsufficientInputAmount,
            c == 104 <==> *self == PairError::InsufficientOutputAmount,
            c == 105 <==> *self == PairError::InvalidK,
            c == 106 <==> *self == PairError::Locked,
            c == 107 <==> *self == PairError::FlashLoanNotRepaid,
            c == 108 <==> *self == PairError::FlashPayloadTooLarge,
            c == 109 <==> *self == PairError::Paused,
            c == 110 <==> *self == PairError::Overflow,
            c == 111 <==> *self == PairError::ZeroAddress,
            c == 112 <==> *self == PairError::InsufficientLiquidityMinted,
            c == 113 <==> *self == PairError::InsufficientLiquidityBurned,
            c == 114 <==> *self == PairError::InvalidInput,
            c == 115 <==> *self == PairError::InvalidEmaAlpha,
            c == 116 <==> *self == PairError::FeeOverflow,
            c == 117 <==> *self == PairError::FlashCallbackFailed,
            c == 118 <==> *self == PairError::FlashLoanFeeTooHigh,
            c == 119 <==> *self == PairError::SlippageExceeded,
    {
        match self {
            PairError::AlreadyInitialized => 100,
            PairError::NotInitialized => 101,
            PairError::InsufficientLiquidity => 102,
            PairError::InsufficientInputAmount => 103,
            PairError::InsufficientOutputAmount => 104,
            PairError::InvalidK => 105,
            PairError::Locked => 106,
            PairError::FlashLoanNotRepaid => 107,
            PairError::FlashPayloadTooLarge => 108,
            PairError::Paused => 109,
            PairError::Overflow => 110,
            PairError::ZeroAddress => 111,
            PairError::InsufficientLiquidityMinted => 112,
            PairError::InsufficientLiquidityBurned => 113,
            PairError::InvalidInput => 114,
            PairError::InvalidEmaAlpha => 115,
            PairError::FeeOverflow => 116,
            PairError::FlashCallbackFailed => 117,
            PairError::FlashLoanFeeTooHigh => 118,
            PairError::SlippageExceeded => 119,
        }
    }
}

/// Errors returned by the LP token.
#[derive(Clone, Copy, Debug, PartialEq, Eq, Structural, PartialOrd, Ord)]
pub enum LpTokenError {
    AlreadyInitialized,
    NotInitialized,
    Unauthorized,
    InsufficientBalance,
    InsufficientAllowance,
    Overflow,
    ContractPaused,
}

impl LpTokenError {
    /// The numeric code under which the error is reported to callers.
    pub fn code(&self) -> (c: u32)
        ensures
            200 <= c <= 206,
            c == 200 <==> *self == LpTokenError::AlreadyInitialized,
            c == 201 <==> *self == LpTokenError::NotInitialized,
            c == 202 <==> *self == LpTokenError::Unauthorized,
            c == 203 <==> *self == LpTokenError::InsufficientBalance,
            c == 204 <==> *self == LpTokenError::InsufficientAllowance,
            c == 205 <==> *self == LpTokenError::Overflow,
            c == 206 <==> *self == LpTokenError::ContractPaused,
    {
        match self {
            LpTokenError::AlreadyInitialized => 200,
            LpTokenError::NotInitialized => 201,
            LpTokenError::Unauthorized => 202,
            LpTokenError::InsufficientBalance => 203,
            LpTokenError::InsufficientAllowance => 204,
            LpTokenError::Overflow => 205,
            LpTokenError::ContractPaused => 206,
        }
    }
}

/// The factory errors raised by the upgrade timelock.
#[derive(Clone, Copy, Debug, PartialEq, Eq, Structural, PartialOrd, Ord)]
pub enum FactoryError {
    UpgradeAlreadyPending,
    NoPendingUpgrade,
    UpgradeTimelockNotExpired,
}

} // verus!
