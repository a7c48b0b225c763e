//! Records kept by the LP token. Addresses are their canonical byte encodings.
use vstd::prelude::*;

verus! {

/// The token's descriptive metadata.
#[derive(Debug)]
pub struct TokenMetadata {
    pub decimals: u32,
    pub name: String,
    pub symbol: String,
}

/// An allowance granted by a holder to a spender, valid through `expiration_ledger`.
#[derive(Clone, Copy, Debug, PartialEq, Eq, Structural)]
pub struct AllowanceEntry {
    pub amount: i128,
    pub expiration_ledger: u32,
}

/// Keys of the LP token's storage.
#[derive(Debug)]
pub enum LpTokenKey {
    Balance(Vec<u8>),
    Allowance(Vec<u8>, Vec<u8>),
    TotalSupply,
    Metadata,
    Admin,
    Paused,
}

} // verus!
