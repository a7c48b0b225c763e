//! The factory's upgrade timelock: a proposed code upgrade can be executed
//! only after a fixed number of ledgers, and can be cancelled before.
use vstd::prelude::*;
use crate::errors::FactoryError;

verus! {

/// 72 hours in ledgers at about five seconds per ledger.
pub const UPGRADE_DELAY_LEDGERS: u32 = 51_840;

/// A proposed upgrade: the hash of the new code and the ledger it was proposed at.
#[derive(Clone, Copy, Debug)]
pub struct PendingUpgrade {
    pub new_wasm_hash: [u8; 32],
    pub proposed_at_ledger: u32,
}

/// What the timelock reads and writes in the factory's storage: the pending
/// proposal, and the protocol version where the factory has stored one.
#[derive(Clone, Copy, Debug)]
pub struct UpgradeState {
    pub pending_upgrade: Option<PendingUpgrade>,
    pub protocol_version: Option<u32>,
}

/// State and result after proposing `hash` at ledger `current_ledger`.
pub open spec fn propose_spec(st: UpgradeState, hash: [u8; 32], current_ledger: u32) -> (UpgradeState, Result<(), FactoryError>) {
    if st.pending_upgrade is Some {
        (st, Err(FactoryError::UpgradeAlreadyPending))
    } else {
        (UpgradeState {
            pending_upgrade: Some(PendingUpgrade { new_wasm_hash: hash, proposed_at_ledger: current_ledger }),
            ..st
        }, Ok(()))
    }
}

/// Ledgers elapsed since a proposal, saturating at zero.
pub open spec fn elapsed_since(proposed: u32, current_ledger: u32) -> int {
    if current_ledger >= proposed { current_ledger - proposed } else { 0 }
}

/// State and result after executing at `current_ledger`: on success the hash
/// of the code to install; the proposal is cleared and the protocol version,
/// where present, goes up by one.
pub open spec fn execute_spec(st: UpgradeState, current_ledger: u32) -> (UpgradeState, Result<[u8; 32], FactoryError>) {
    match st.pending_upgrade {
        None => (st, Err(FactoryError::NoPendingUpgrade)),
        Some(p) => if elapsed_since(p.proposed_at_ledger, current_ledger) < UPGRADE_DELAY_LEDGERS {
            (st, Err(FactoryError::UpgradeTimelockNotExpired))
        } else {
            (UpgradeState {
                pending_upgrade: None,
                protocol_version: match st.protocol_version {
                    Some(v) => Some((v + 1) as u32),
                    None => None,
                },
            }, Ok(p.new_wasm_hash))
        },
    }
}

/// State and result after cancelling.
pub open spec fn cancel_spec(st: UpgradeState) -> (UpgradeState, Result<(), FactoryError>) {
    if st.pending_upgrade is None {
        (st, Err(FactoryError::NoPendingUpgrade))
    } else {
        (UpgradeState { pending_upgrade: None, ..st }, Ok(()))
    }
}

/// Proposes an upgrade to the code with hash `new_wasm_hash`; rejected while
/// another proposal is pending.
pub fn propose_upgrade(st: &mut UpgradeState, new_wasm_hash: [u8; 32], current_ledger: u32) -> (r: Result<(), FactoryError>)
    ensures
        (*final(st), r) == propose_spec(*old(st), new_wasm_hash, current_ledger),
{
    if st.pending_upgrade.is_some() {
        return Err(FactoryError::UpgradeAlreadyPending);
    }
    st.pending_upgrade = Some(PendingUpgrade { new_wasm_hash, proposed_at_ledger: current_ledger });
    Ok(())
}

/// Executes the pending upgrade once the timelock has elapsed; returns the
/// hash of the code to install.
pub fn execute_upgrade(st: &mut UpgradeState, current_ledger: u32) -> (r: Result<[u8; 32], FactoryError>)
    requires
        old(st).protocol_version matches Some(v) ==> v < u32::MAX,
    ensures
        (*final(st), r) == execute_spec(*old(st), current_ledger),
{
    let p = match st.pending_upgrade {
        Some(p) => p,
        None => return Err(FactoryError::NoPendingUpgrade),
    };
    let elapsed = current_ledger.saturating_sub(p.proposed_at_ledger);
    if elapsed < UPGRADE_DELAY_LEDGERS {
        return Err(FactoryError::UpgradeTimelockNotExpired);
    }
    st.pending_upgrade = None;
    st.protocol_version = match st.protocol_version {
        Some(v) => Some(v + 1),
        None => None,
    };
    Ok(p.new_wasm_hash)
}

/// Cancels the pending upgrade.
pub fn cancel_upgrade(st: &mut UpgradeState) -> (r: Result<(), FactoryError>)
    ensures
        (*final(st), r) == cancel_spec(*old(st)),
{
    if st.pending_upgrade.is_none() {
        return Err(FactoryError::NoPendingUpgrade);
    }
    st.pending_upgrade = None;
    Ok(())
}

/// The timelock: after a proposal at ledger `at`, execution fails with
/// `UpgradeTimelockNotExpired` (changing nothing) before `at + 51840`, and
/// from then on succeeds with the proposed hash, clearing the proposal.
pub proof fn lemma_timelock(st: UpgradeState, hash: [u8; 32], at: u32, now: u32)
    requires
        st.pending_upgrade is None,
        at <= now,
    ensures
        ({
            let proposed = propose_spec(st, hash, at).0;
            let (after, r) = execute_spec(proposed, now);
            &&& now - at < UPGRADE_DELAY_LEDGERS ==> r == Err::<[u8; 32], FactoryError>(FactoryError::UpgradeTimelockNotExpired)
                && after == proposed
            &&& now - at >= UPGRADE_DELAY_LEDGERS ==> r == Ok::<[u8; 32], FactoryError>(hash)
                && after.pending_upgrade is None
        }),
{
}

/// A cancelled proposal cannot be executed, and a second proposal is
/// refused while one is pending.
pub proof fn lemma_cancel_and_single_pending(st: UpgradeState, hash: [u8; 32], other: [u8; 32], at: u32, now: u32)
    requires
        st.pending_upgrade is None,
    ensures
        execute_spec(cancel_spec(propose_spec(st, hash, at).0).0, now).1
            == Err::<[u8; 32], FactoryError>(FactoryError::NoPendingUpgrade),
        propose_spec(propose_spec(st, hash, at).0, other, now).1
            == Err::<(), FactoryError>(FactoryError::UpgradeAlreadyPending),
{
}

} // verus!
