//! Verified core of an automated market maker: swap pricing, liquidity
//! accounting, the dynamic fee, the reentrancy lock and the upgrade timelock.
pub mod address;
pub mod arith;
pub mod errors;
pub mod flash_loan;
pub mod flash_receiver;
pub mod dynamic_fee;
pub mod helpers;
pub mod lp_token;
pub mod pair;
pub mod reentrancy;
pub mod router;
pub mod upgrade;
