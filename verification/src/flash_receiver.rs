//! The decisions of the flash-loan receivers used to exercise a pair: an
//! honest one that repays or withholds as its payload says, and an
//! adversarial one that tries to re-enter the pair.
use vstd::prelude::*;
use crate::address::bytes_equal;

verus! {

/// The payload asking the honest receiver to repay: `"repay"`.
pub open spec fn repay_word() -> Seq<u8> {
    seq![114u8, 101u8, 112u8, 97u8, 121u8]
}

/// The payload asking the adversarial receiver to re-enter `swap`: `"attack_swap"`.
pub open spec fn attack_swap_word() -> Seq<u8> {
    seq![97u8, 116u8, 116u8, 97u8, 99u8, 107u8, 95u8, 115u8, 119u8, 97u8, 112u8]
}

/// The payload asking the adversarial receiver to nest a flash loan: `"attack_flash"`.
pub open spec fn attack_flash_word() -> Seq<u8> {
    seq![97u8, 116u8, 116u8, 97u8, 99u8, 107u8, 95u8, 102u8, 108u8, 97u8, 115u8, 104u8]
}

/// The payload of the nested flash loan: `"nested"`.
pub open spec fn nested_word() -> Seq<u8> {
    seq![110u8, 101u8, 115u8, 116u8, 101u8, 100u8]
}

fn repay_bytes() -> (v: Vec<u8>)
    ensures
        v@ == repay_word(),
{
    let v = vec![114u8, 101u8, 112u8, 97u8, 121u8];
    assert(v@ =~= repay_word());
    v
}

fn attack_swap_bytes() -> (v: Vec<u8>)
    ensures
        v@ == attack_swap_word(),
{
    let v = vec![97u8, 116u8, 116u8, 97u8, 99u8, 107u8, 95u8, 115u8, 119u8, 97u8, 112u8];
    assert(v@ =~= attack_swap_word());
    v
}

fn attack_flash_bytes() -> (v: Vec<u8>)
    ensures
        v@ == attack_flash_word(),
{
    let v = vec![97u8, 116u8, 116u8, 97u8, 99u8, 107u8, 95u8, 102u8, 108u8, 97u8, 115u8, 104u8];
    assert(v@ =~= attack_flash_word());
    v
}

fn nested_bytes() -> (v: Vec<u8>)
    ensures
        v@ == nested_word(),
{
    let v = vec![110u8, 101u8, 115u8, 116u8, 101u8, 100u8];
    assert(v@ =~= nested_word());
    v
}

/// The transfers the honest receiver makes back to the lender: of each token
/// borrowed (a positive amount), principal plus fee.
#[derive(Clone, Copy, Debug, PartialEq, Eq, Structural)]
pub struct FlashRepayment {
    pub repay_a: Option<i128>,
    pub repay_b: Option<i128>,
}

/// A receiver that repays principal plus fee when asked with `"repay"`, and
/// repays nothing otherwise.
pub struct MockFlashReceiver;

impl MockFlashReceiver {
    /// The repayment for a loan of `amount_a` and `amount_b` with fees
    /// `fee_a` and `fee_b` under payload `data`.
    pub fn on_flash_loan(data: &Vec<u8>, amount_a: i128, amount_b: i128, fee_a: i128, fee_b: i128) -> (r: FlashRepayment)
        requires
            data@ == repay_word() && amount_a > 0 ==> i128::MIN <= amount_a + fee_a <= i128::MAX,
            data@ == repay_word() && amount_b > 0 ==> i128::MIN <= amount_b + fee_b <= i128::MAX,
        ensures
            data@ == repay_word() ==> {
                &&& r.repay_a == (if amount_a > 0 { Some((amount_a + fee_a) as i128) } else { None })
                &&& r.repay_b == (if amount_b > 0 { Some((amount_b + fee_b) as i128) } else { None })
            },
            data@ != repay_word() ==> r.repay_a is None && r.repay_b is None,
    {
        if bytes_equal(data, &repay_bytes()) {
            let repay_a = if amount_a > 0 { Some(amount_a + fee_a) } else { None };
            let repay_b = if amount_b > 0 { Some(amount_b + fee_b) } else { None };
            FlashRepayment { repay_a, repay_b }
        } else {
            FlashRepayment { repay_a: None, repay_b: None }
        }
    }
}

/// What the adversarial receiver attempts during the callback.
#[derive(Debug)]
pub enum ReentryAttempt {
    /// Call the lender's `swap` for 0 of token A and 1 of token B to itself.
    Swap { amount_a_out: i128, amount_b_out: i128 },
    /// Take a nested flash loan of the same amounts with payload `"nested"`.
    FlashLoan { amount_a: i128, amount_b: i128, data: Vec<u8> },
    /// Do nothing.
    Nothing,
}

/// A receiver that tries to re-enter the lender during the callback.
pub struct MaliciousFlashReceiver;

impl MaliciousFlashReceiver {
    /// The re-entry the adversary attempts under payload `data`.
    pub fn on_flash_loan(data: &Vec<u8>, amount_a: i128, amount_b: i128) -> (r: ReentryAttempt)
        ensures
            data@ == attack_swap_word() ==> r == (ReentryAttempt::Swap { amount_a_out: 0, amount_b_out: 1 }),
            data@ != attack_swap_word() && data@ == attack_flash_word() ==> (r matches ReentryAttempt::FlashLoan { amount_a: a, amount_b: b, data: d }
                && a == amount_a && b == amount_b && d@ == nested_word()),
            data@ != attack_swap_word() && data@ != attack_flash_word() ==> r == ReentryAttempt::Nothing,
    {
        if bytes_equal(data, &attack_swap_bytes()) {
            ReentryAttempt::Swap { amount_a_out: 0, amount_b_out: 1 }
        } else if bytes_equal(data, &attack_flash_bytes()) {
            ReentryAttempt::FlashLoan { amount_a, amount_b, data: nested_bytes() }
        } else {
            ReentryAttempt::Nothing
        }
    }
}

} // verus!
