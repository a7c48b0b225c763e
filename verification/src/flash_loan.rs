//! Flash loans: the fee charged, and the decisions before and after the
//! borrower's callback. Opening a loan takes the pair's reentrancy lock, so
//! nothing re-enters the pair while the borrower holds the tokens; settling
//! checks that principal plus fee came back and releases the lock.
use vstd::prelude::*;
use crate::arith::{in_i128, trunc_div};
use crate::dynamic_fee::{fee_bps_spec, fee_bounds_ordered, compute_fee_bps};
use crate::errors::PairError;
use crate::pair::{Pair, with_reserves, DEFAULT_FEE_BPS};
use crate::reentrancy::{ReentrancyGuard, acquire_spec};

verus! {

/// The largest flash-loan fee rate: 100%.
pub const MAX_FLASH_FEE_BPS: u32 = 10000;

/// The fee on borrowing `amount` at `fee_bps` basis points:
/// `amount * fee_bps / 10000` rounded toward zero.
pub open spec fn flash_fee_spec(amount: int, fee_bps: int) -> Result<int, PairError> {
    if fee_bps > 10000 {
        Err(PairError::FlashLoanFeeTooHigh)
    } else if !in_i128(amount * fee_bps) {
        Err(PairError::FeeOverflow)
    } else {
        Ok(trunc_div(amount * fee_bps, 10000))
    }
}

/// Computes the fee owed on a flash loan of `amount`.
pub fn compute_flash_fee(amount: i128, fee_bps: u32) -> (r: Result<i128, PairError>)
    ensures
        match r {
            Ok(f) => flash_fee_spec(amount as int, fee_bps as int) == Ok::<int, PairError>(f as int),
            Err(e) => flash_fee_spec(amount as int, fee_bps as int) == Err::<int, PairError>(e),
        },
{
    if fee_bps > MAX_FLASH_FEE_BPS {
        return Err(PairError::FlashLoanFeeTooHigh);
    }
    let product = match amount.checked_mul(fee_bps as i128) {
        Some(v) => v,
        None => return Err(PairError::FeeOverflow),
    };
    proof {
        crate::arith::lemma_trunc_div_in_range(product as int, 10000);
    }
    match product.checked_div(10000) {
        Some(v) => Ok(v),
        None => Err(PairError::FeeOverflow),
    }
}

/// The fee on a non-negative loan never exceeds the loan and is non-negative.
pub proof fn lemma_flash_fee_bounded(amount: int, fee_bps: int)
    requires
        amount >= 0,
        0 <= fee_bps,
        flash_fee_spec(amount, fee_bps) is Ok,
    ensures
        0 <= flash_fee_spec(amount, fee_bps)->Ok_0 <= amount,
{
    let p = amount * fee_bps;
    assert(0 <= p <= amount * 10000) by (nonlinear_arith)
        requires amount >= 0, 0 <= fee_bps <= 10000, p == amount * fee_bps;
    vstd::arithmetic::div_mod::lemma_div_is_ordered(p, amount * 10000, 10000);
    vstd::arithmetic::div_mod::lemma_div_multiples_vanish(amount, 10000);
    assert(amount * 10000 == 10000 * amount) by (nonlinear_arith);
    vstd::arithmetic::div_mod::lemma_div_pos_is_pos(p, 10000);
}

/// The fee rate a flash loan charges: the pair's current fee.
pub open spec fn flash_fee_rate(p: Pair) -> int {
    match p.fee_state {
        None => DEFAULT_FEE_BPS as int,
        Some(fs) => fee_bps_spec(fs),
    }
}

/// Opening a flash loan of `amount_a` and `amount_b`: the fees owed on each,
/// or the error. The pair must be initialized and unlocked, and each amount
/// non-negative and below its reserve.
pub open spec fn flash_begin_spec(p: Pair, amount_a: int, amount_b: int) -> Result<(int, int), PairError> {
    if p.reentrancy_guard.locked {
        Err(PairError::Locked)
    } else {
        match p.pair_state {
            None => Err(PairError::NotInitialized),
            Some(s) => if amount_a < 0 || amount_b < 0 {
                Err(PairError::InvalidInput)
            } else if amount_a >= s.reserve_a || amount_b >= s.reserve_b {
                Err(PairError::InsufficientLiquidity)
            } else {
                match flash_fee_spec(amount_a, flash_fee_rate(p)) {
                    Err(e) => Err(e),
                    Ok(fee_a) => match flash_fee_spec(amount_b, flash_fee_rate(p)) {
                        Err(e) => Err(e),
                        Ok(fee_b) => Ok((fee_a, fee_b)),
                    },
                }
            },
        }
    }
}

/// Opening the loan reaches the fee computation with unordered fee bounds.
pub open spec fn flash_begin_panics(p: Pair, amount_a: int, amount_b: int) -> bool {
    &&& !p.reentrancy_guard.locked
    &&& p.pair_state is Some
    &&& 0 <= amount_a < p.pair_state.unwrap().reserve_a
    &&& 0 <= amount_b < p.pair_state.unwrap().reserve_b
    &&& p.fee_state matches Some(fs) && !fee_bounds_ordered(fs)
}

/// The balance falls short of the reserve plus the fee.
pub open spec fn short_of(balance: int, reserve: int, fee: int) -> bool {
    balance < reserve + fee
}

/// Settling a flash loan with the pair's balances observed after the
/// callback: both tokens must be back with their fees; then the reserves
/// become the balances.
pub open spec fn flash_settle_spec(p: Pair, balance_a: int, balance_b: int, fee_a: int, fee_b: int) -> Result<(), PairError> {
    match p.pair_state {
        None => Err(PairError::NotInitialized),
        Some(s) => if short_of(balance_a, s.reserve_a as int, fee_a) || short_of(balance_b, s.reserve_b as int, fee_b) {
            Err(PairError::FlashLoanNotRepaid)
        } else if !in_i128(balance_a * balance_b) {
            Err(PairError::Overflow)
        } else {
            Ok(())
        },
    }
}

/// `balance < reserve + fee`, without overflow.
fn falls_short(balance: i128, reserve: i128, fee: i128) -> (r: bool)
    ensures
        r == short_of(balance as int, reserve as int, fee as int),
{
    match reserve.checked_add(fee) {
        Some(owed) => balance < owed,
        None => fee > 0,
    }
}

impl Pair {
    /// Tells whether `flash_loan_begin` would panic on these arguments.
    pub fn flash_loan_begin_would_panic(&self, amount_a: i128, amount_b: i128) -> (r: bool)
        ensures
            r == flash_begin_panics(*self, amount_a as int, amount_b as int),
    {
        if self.reentrancy_guard.locked {
            return false;
        }
        let s = match &self.pair_state {
            Some(s) => s,
            None => return false,
        };
        if amount_a < 0 || amount_b < 0 || amount_a >= s.reserve_a || amount_b >= s.reserve_b {
            return false;
        }
        match &self.fee_state {
            Some(fs) => fs.min_fee_bps > fs.max_fee_bps,
            None => false,
        }
    }

    /// Opens a flash loan: checks it and returns the fees owed on each
    /// amount at the pair's current fee. On success the reentrancy lock is
    /// held until `flash_loan_settle`; on error nothing changes.
    pub fn flash_loan_begin(&mut self, amount_a: i128, amount_b: i128) -> (r: Result<(i128, i128), PairError>)
        requires
            !flash_begin_panics(*old(self), amount_a as int, amount_b as int),
        ensures
            match r {
                Ok((fee_a, fee_b)) => {
                    &&& flash_begin_spec(*old(self), amount_a as int, amount_b as int)
                        == Ok::<(int, int), PairError>((fee_a as int, fee_b as int))
                    &&& final(self).reentrancy_guard.locked
                    &&& final(self).pair_state == old(self).pair_state
                    &&& final(self).fee_state == old(self).fee_state
                },
                Err(e) => {
                    &&& flash_begin_spec(*old(self), amount_a as int, amount_b as int) == Err::<(int, int), PairError>(e)
                    &&& *final(self) == *old(self)
                },
            },
    {
        if self.reentrancy_guard.locked {
            return Err(PairError::Locked);
        }
        let s = match &self.pair_state {
            Some(s) => s,
            None => return Err(PairError::NotInitialized),
        };
        if amount_a < 0 || amount_b < 0 {
            return Err(PairError::InvalidInput);
        }
        if amount_a >= s.reserve_a || amount_b >= s.reserve_b {
            return Err(PairError::InsufficientLiquidity);
        }
        let rate = match &self.fee_state {
            Some(fs) => compute_fee_bps(fs),
            None => DEFAULT_FEE_BPS,
        };
        let fee_a = match compute_flash_fee(amount_a, rate) {
            Ok(f) => f,
            Err(e) => return Err(e),
        };
        let fee_b = match compute_flash_fee(amount_b, rate) {
            Ok(f) => f,
            Err(e) => return Err(e),
        };
        self.reentrancy_guard = ReentrancyGuard { locked: true };
        Ok((fee_a, fee_b))
    }

    /// Settles a flash loan that charged `fee_a` and `fee_b`, given the
    /// pair's balances after the borrower's callback: fails with
    /// `FlashLoanNotRepaid` unless each balance is at least its reserve plus
    /// its fee. On success the reserves become the balances and the lock is
    /// released; on error nothing changes.
    pub fn flash_loan_settle(&mut self, balance_a: i128, balance_b: i128, fee_a: i128, fee_b: i128, timestamp: u64) -> (r: Result<(), PairError>)
        ensures
            r == flash_settle_spec(*old(self), balance_a as int, balance_b as int, fee_a as int, fee_b as int),
            r is Ok ==> {
                &&& final(self).pair_state == Some(with_reserves(old(self).pair_state.unwrap(), balance_a as int,
                    balance_b as int, balance_a * balance_b, timestamp))
                &&& !final(self).reentrancy_guard.locked
                &&& final(self).fee_state == old(self).fee_state
            },
            r is Err ==> *final(self) == *old(self),
    {
        let s = match &self.pair_state {
            Some(s) => s,
            None => return Err(PairError::NotInitialized),
        };
        if falls_short(balance_a, s.reserve_a, fee_a) || falls_short(balance_b, s.reserve_b, fee_b) {
            return Err(PairError::FlashLoanNotRepaid);
        }
        let k_last = match balance_a.checked_mul(balance_b) {
            Some(v) => v,
            None => return Err(PairError::Overflow),
        };
        let mut st = self.pair_state.take().unwrap();
        st.reserve_a = balance_a;
        st.reserve_b = balance_b;
        st.k_last = k_last;
        st.block_timestamp_last = timestamp;
        self.pair_state = Some(st);
        self.reentrancy_guard = ReentrancyGuard { locked: false };
        Ok(())
    }
}

/// Settling succeeds only when each token is back with its fee: the balance
/// of each is at least its reserve plus its fee. A shortfall in either token
/// refuses the settlement with `FlashLoanNotRepaid`; with both repaid (and a
/// product that fits) it succeeds.
pub proof fn lemma_flash_settle_requires_repayment(p: Pair, balance_a: int, balance_b: int, fee_a: int, fee_b: int)
    requires
        p.pair_state is Some,
    ensures
        ({
            let s = p.pair_state.unwrap();
            let r = flash_settle_spec(p, balance_a, balance_b, fee_a, fee_b);
            &&& r is Ok ==> balance_a >= s.reserve_a + fee_a && balance_b >= s.reserve_b + fee_b
            &&& (balance_a < s.reserve_a + fee_a || balance_b < s.reserve_b + fee_b)
                ==> r == Err::<(), PairError>(PairError::FlashLoanNotRepaid)
            &&& (balance_a >= s.reserve_a + fee_a && balance_b >= s.reserve_b + fee_b && in_i128(balance_a * balance_b))
                ==> r is Ok
        }),
{
}

/// While a flash loan is open nothing re-enters the pair: once a loan has
/// been opened, the lock refuses a swap's or burn's acquisition and a nested
/// loan with `Locked`. A borrower that returns principal plus fee settles
/// the loan, leaving each reserve higher by exactly its fee, which is at
/// most what was borrowed.
pub proof fn lemma_flash_loan_round_trip(p: Pair, amount_a: int, amount_b: int, other_a: int, other_b: int)
    requires
        flash_begin_spec(p, amount_a, amount_b) is Ok,
    ensures
        ({
            let (fee_a, fee_b) = flash_begin_spec(p, amount_a, amount_b)->Ok_0;
            let open = Pair { reentrancy_guard: ReentrancyGuard { locked: true }, ..p };
            let s = p.pair_state.unwrap();
            &&& acquire_spec(open.reentrancy_guard).1 == Err::<(), PairError>(PairError::Locked)
            &&& flash_begin_spec(open, other_a, other_b) == Err::<(int, int), PairError>(PairError::Locked)
            &&& in_i128((s.reserve_a + fee_a) * (s.reserve_b + fee_b)) ==>
                flash_settle_spec(open, s.reserve_a + fee_a, s.reserve_b + fee_b, fee_a, fee_b) is Ok
            &&& 0 <= fee_a <= amount_a
            &&& 0 <= fee_b <= amount_b
        }),
{
    let rate = flash_fee_rate(p);
    assert(rate >= 0);
    lemma_flash_fee_bounded(amount_a, rate);
    lemma_flash_fee_bounded(amount_b, rate);
}

} // verus!
