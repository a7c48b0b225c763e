//! The reentrancy lock of a pair: entry points that call out to other
//! contracts hold it, and a nested entry finds it held.
use vstd::prelude::*;
use crate::errors::PairError;

verus! {

/// The stored lock flag. A fresh pair is unlocked.
#[derive(Clone, Copy, Debug, PartialEq, Eq, Structural)]
pub struct ReentrancyGuard {
    pub locked: bool,
}

/// The lock after an acquisition attempt, and the attempt's result.
pub open spec fn acquire_spec(g: ReentrancyGuard) -> (ReentrancyGuard, Result<(), PairError>) {
    if g.locked {
        (g, Err(PairError::Locked))
    } else {
        (ReentrancyGuard { locked: true }, Ok(()))
    }
}

/// The lock after a release.
pub open spec fn release_spec(g: ReentrancyGuard) -> ReentrancyGuard {
    ReentrancyGuard { locked: false }
}

impl ReentrancyGuard {
    /// An unlocked guard.
    pub fn new() -> (g: Self)
        ensures
            !g.locked,
    {
        ReentrancyGuard { locked: false }
    }

    /// Acquires the lock; fails with `Locked`, leaving the lock as it was, if
    /// it is already held.
    pub fn acquire(&mut self) -> (r: Result<(), PairError>)
        ensures
            (*final(self), r) == acquire_spec(*old(self)),
    {
        if self.locked {
            return Err(PairError::Locked);
        }
        self.locked = true;
        Ok(())
    }

    /// Releases the lock, whether or not it was held.
    pub fn release(&mut self)
        ensures
            *final(self) == release_spec(*old(self)),
    {
        self.locked = false;
    }
}

/// Lock discipline: from an unlocked guard the first acquisition succeeds, a
/// second one while it is held fails with `Locked`, and after a release the
/// lock can be acquired again.
pub proof fn lemma_lock_cycle(g: ReentrancyGuard)
    requires
        !g.locked,
    ensures
        acquire_spec(g).1 is Ok,
        acquire_spec(acquire_spec(g).0).1 == Err::<(), PairError>(PairError::Locked),
        acquire_spec(acquire_spec(g).0).0 == acquire_spec(g).0,
        acquire_spec(release_spec(acquire_spec(g).0)).1 is Ok,
{
}

} // verus!
