//! The router: multi-hop swaps and liquidity provision over pairs. Each entry
//! point decides, from what the caller read of the factory and the pairs, the
//! amounts to move or the error to return.
use vstd::prelude::*;
use crate::address::{bytes_lt, bytes_equal, bytes_less, copy_bytes};
use crate::errors::RouterError;
use crate::helpers::{PoolQuote, amount_out_spec, amount_out_panics, amount_in_spec, amount_in_panics,
    get_amount_out, get_amount_in, amount_out_would_panic, amount_in_would_panic, optimal_amounts_spec, optimal_amounts_panics, compute_optimal_amounts,
    int_result, int_seq_result, int_pair_result};

verus! {

/// Keys of the router's storage.
#[derive(Clone, Copy, Debug, PartialEq, Eq, Structural)]
pub enum DataKey {
    Factory,
    Hubs,
}

/// What the router stores: the factory it routes through and its hub tokens.
#[derive(Debug)]
pub struct Router {
    pub factory: Option<Vec<u8>>,
    pub hubs: Vec<Vec<u8>>,
}

/// `(reserve_in, reserve_out)` of a pool for a hop from `token_in` to
/// `token_out`: the pool's first reserve belongs to the token that sorts first.
pub open spec fn hop_reserves(pool: PoolQuote, token_in: Seq<u8>, token_out: Seq<u8>) -> (int, int) {
    if bytes_lt(token_in, token_out) {
        (pool.reserve_a as int, pool.reserve_b as int)
    } else {
        (pool.reserve_b as int, pool.reserve_a as int)
    }
}

/// The deadline, a ledger sequence number truncated to 32 bits, has passed.
pub open spec fn sequence_expired(ledger_sequence: u32, deadline: u64) -> bool {
    ledger_sequence > #[verifier::truncate] (deadline as u32)
}

/// Hop `i` of an exact-input swap entered with `amount`, given `pool`, what
/// the pair between `path[i]` and `path[i + 1]` reports when the hop is
/// taken (`None` where the factory has none), and, before the last hop,
/// whether the next hop's pair exists: the hop's output, with the slippage
/// check on the last hop.
pub open spec fn exact_in_step_spec(path: Seq<Vec<u8>>, i: int, amount: int, pool: Option<PoolQuote>, next_found: bool, amount_out_min: int) -> Result<int, RouterError> {
    match pool {
        None => Err(RouterError::PairNotFound),
        Some(q) => {
            let (rin, rout) = hop_reserves(q, path[i]@, path[i + 1]@);
            match amount_out_spec(amount, rin, rout, q.fee_bps as int) {
                Err(e) => Err(e),
                Ok(out) => if i + 2 == path.len() {
                    if out < amount_out_min {
                        Err(RouterError::SlippageExceeded)
                    } else if path[i]@ == path[i + 1]@ {
                        Err(RouterError::IdenticalTokens)
                    } else {
                        Ok(out)
                    }
                } else if !next_found {
                    Err(RouterError::PairNotFound)
                } else if path[i]@ == path[i + 1]@ {
                    Err(RouterError::IdenticalTokens)
                } else {
                    Ok(out)
                },
            }
        },
    }
}

/// Hop `i`'s output computation divides `i128::MIN` by -1.
pub open spec fn exact_in_step_panics(path: Seq<Vec<u8>>, i: int, amount: int, pool: Option<PoolQuote>) -> bool {
    match pool {
        None => false,
        Some(q) => {
            let (rin, rout) = hop_reserves(q, path[i]@, path[i + 1]@);
            amount_out_panics(amount, rin, rout, q.fee_bps as int)
        },
    }
}

/// The amounts of hops `i..` of an exact-input swap entering hop `i` with
/// `amount`, hop `k` taken with `pools[k]`.
pub open spec fn exact_in_hops(path: Seq<Vec<u8>>, pools: Seq<Option<PoolQuote>>, i: int, amount: int, amount_out_min: int) -> Result<Seq<int>, RouterError>
    decreases path.len() - i,
{
    if i < 0 || i + 1 >= path.len() {
        Ok(Seq::empty())
    } else {
        match exact_in_step_spec(path, i, amount, pools[i], pools[i + 1] is Some, amount_out_min) {
            Err(e) => Err(e),
            Ok(out) => if i + 2 == path.len() {
                Ok(seq![out])
            } else {
                match exact_in_hops(path, pools, i + 1, out, amount_out_min) {
                    Err(e) => Err(e),
                    Ok(rest) => Ok(seq![out] + rest),
                }
            },
        }
    }
}

/// Some hop from hop `i` on of an exact-input swap reaches a panicking division.
pub open spec fn exact_in_panics(path: Seq<Vec<u8>>, pools: Seq<Option<PoolQuote>>, i: int, amount: int, amount_out_min: int) -> bool
    decreases path.len() - i,
{
    if i < 0 || i + 1 >= path.len() {
        false
    } else {
        match pools[i] {
            None => false,
            Some(pool) => {
                let (rin, rout) = hop_reserves(pool, path[i]@, path[i + 1]@);
                amount_out_panics(amount, rin, rout, pool.fee_bps as int) || match amount_out_spec(amount, rin, rout, pool.fee_bps as int) {
                    Err(_) => false,
                    Ok(out) => i + 2 != path.len() && pools[i + 1] is Some && path[i]@ != path[i + 1]@
                        && exact_in_panics(path, pools, i + 1, out, amount_out_min),
                }
            },
        }
    }
}

/// The checks of an exact-input swap made before its first hop.
pub open spec fn exact_in_start_spec(factory_set: bool, ledger_sequence: u32, amount_in: int, path_len: int, deadline: u64) -> Result<(), RouterError> {
    if sequence_expired(ledger_sequence, deadline) {
        Err(RouterError::TransactionExpired)
    } else if amount_in <= 0 {
        Err(RouterError::ZeroAmount)
    } else if path_len < 2 {
        Err(RouterError::InvalidPath)
    } else if !factory_set {
        Err(RouterError::PairNotFound)
    } else {
        Ok(())
    }
}

/// Outcome of an exact-input swap along `path`: every amount from the input
/// to the final output, or the error.
pub open spec fn exact_in_spec(
    factory_set: bool,
    ledger_sequence: u32,
    amount_in: int,
    amount_out_min: int,
    path: Seq<Vec<u8>>,
    deadline: u64,
    pools: Seq<Option<PoolQuote>>,
) -> Result<Seq<int>, RouterError> {
    match exact_in_start_spec(factory_set, ledger_sequence, amount_in, path.len() as int, deadline) {
        Err(e) => Err(e),
        Ok(()) => match exact_in_hops(path, pools, 0, amount_in, amount_out_min) {
            Err(e) => Err(e),
            Ok(rest) => Ok(seq![amount_in] + rest),
        },
    }
}

/// The amounts of hops `0..j` of an exact-output swap that must deliver
/// `amount` of `path[j]`: each hop's input from `get_amount_in`, computed
/// backwards from the end.
pub open spec fn exact_out_back(path: Seq<Vec<u8>>, pools: Seq<Option<PoolQuote>>, j: int, amount: int) -> Result<Seq<int>, RouterError>
    decreases j,
{
    if j <= 0 || j >= path.len() {
        Ok(seq![amount])
    } else {
        match pools[j - 1] {
            None => Err(RouterError::PairNotFound),
            Some(pool) => {
                let (rin, rout) = hop_reserves(pool, path[j - 1]@, path[j]@);
                match amount_in_spec(amount, rin, rout, pool.fee_bps as int) {
                    Err(e) => Err(e),
                    Ok(needed) => match exact_out_back(path, pools, j - 1, needed) {
                        Err(e) => Err(e),
                        Ok(prefix) => Ok(prefix + seq![amount]),
                    },
                }
            },
        }
    }
}

/// The backward computation of an exact-output swap reaches a panic.
pub open spec fn exact_out_panics(path: Seq<Vec<u8>>, pools: Seq<Option<PoolQuote>>, j: int, amount: int) -> bool
    decreases j,
{
    if j <= 0 || j >= path.len() {
        false
    } else {
        match pools[j - 1] {
            None => false,
            Some(pool) => {
                let (rin, rout) = hop_reserves(pool, path[j - 1]@, path[j]@);
                amount_in_panics(amount, rin, rout, pool.fee_bps as int) || match amount_in_spec(amount, rin, rout, pool.fee_bps as int) {
                    Err(_) => false,
                    Ok(needed) => exact_out_panics(path, pools, j - 1, needed),
                }
            },
        }
    }
}

/// Two consecutive tokens of `path` are the same token.
pub open spec fn has_repeated_hop(path: Seq<Vec<u8>>) -> bool {
    exists|i: int| 0 <= i < path.len() - 1 && #[trigger] path[i]@ == path[i + 1]@
}

/// Outcome of an exact-output swap along `path`: every amount from the
/// required input to the requested output, or the error.
pub open spec fn exact_out_spec(
    factory_set: bool,
    ledger_sequence: u32,
    amount_out: int,
    amount_in_max: int,
    path: Seq<Vec<u8>>,
    deadline: u64,
    pools: Seq<Option<PoolQuote>>,
) -> Result<Seq<int>, RouterError> {
    if sequence_expired(ledger_sequence, deadline) {
        Err(RouterError::TransactionExpired)
    } else if amount_out <= 0 {
        Err(RouterError::ZeroAmount)
    } else if path.len() < 2 {
        Err(RouterError::InvalidPath)
    } else if !factory_set {
        Err(RouterError::PairNotFound)
    } else {
        match exact_out_back(path, pools, path.len() - 1, amount_out) {
            Err(e) => Err(e),
            Ok(amounts) => if amounts[0] > amount_in_max {
                Err(RouterError::ExcessiveInputAmount)
            } else if has_repeated_hop(path) {
                Err(RouterError::IdenticalTokens)
            } else {
                Ok(amounts)
            },
        }
    }
}

/// Outcome of adding liquidity: the amounts to deposit, or the error.
pub open spec fn add_liquidity_spec(
    factory_set: bool,
    timestamp: u64,
    token_a: Seq<u8>,
    token_b: Seq<u8>,
    amount_a_desired: int,
    amount_b_desired: int,
    amount_a_min: int,
    amount_b_min: int,
    deadline: u64,
    reserves: Option<(i128, i128)>,
) -> Result<(int, int), RouterError> {
    if deadline < timestamp {
        Err(RouterError::Expired)
    } else if amount_a_desired <= 0 || amount_b_desired <= 0 {
        Err(RouterError::ZeroAmount)
    } else if token_a == token_b {
        Err(RouterError::IdenticalTokens)
    } else if !factory_set {
        Err(RouterError::PairNotFound)
    } else {
        match reserves {
            None => Err(RouterError::PairNotFound),
            Some((ra, rb)) => optimal_amounts_spec(amount_a_desired, amount_b_desired, amount_a_min, amount_b_min,
                ra as int, rb as int),
        }
    }
}

/// The checks of removing liquidity before the burn.
pub open spec fn remove_liquidity_spec(
    factory_set: bool,
    timestamp: u64,
    token_a: Seq<u8>,
    token_b: Seq<u8>,
    liquidity: int,
    deadline: u64,
    pair_found: bool,
) -> Result<(), RouterError> {
    if deadline < timestamp {
        Err(RouterError::Expired)
    } else if liquidity <= 0 {
        Err(RouterError::ZeroAmount)
    } else if token_a == token_b {
        Err(RouterError::IdenticalTokens)
    } else if !factory_set || !pair_found {
        Err(RouterError::PairNotFound)
    } else {
        Ok(())
    }
}


/// The amounts of the hops from `i` on: one per remaining hop, the last at
/// least the minimum output.
proof fn lemma_exact_in_hops_shape(path: Seq<Vec<u8>>, pools: Seq<Option<PoolQuote>>, i: int, amount: int, amount_out_min: int)
    requires
        0 <= i,
        i + 1 < path.len(),
        exact_in_hops(path, pools, i, amount, amount_out_min) is Ok,
    ensures
        ({
            let rest = exact_in_hops(path, pools, i, amount, amount_out_min)->Ok_0;
            &&& rest.len() == path.len() - 1 - i
            &&& rest.last() >= amount_out_min
        }),
    decreases path.len() - i,
{
    let pool = pools[i].unwrap();
    let (rin, rout) = hop_reserves(pool, path[i]@, path[i + 1]@);
    let out = amount_out_spec(amount, rin, rout, pool.fee_bps as int)->Ok_0;
    if i + 2 != path.len() {
        lemma_exact_in_hops_shape(path, pools, i + 1, out, amount_out_min);
        let rest = exact_in_hops(path, pools, i + 1, out, amount_out_min)->Ok_0;
        assert((seq![out] + rest).last() == rest.last());
    }
}

/// The hops from `i` on compare only the final output with the minimum.
proof fn lemma_exact_in_hops_min_only_final(path: Seq<Vec<u8>>, pools: Seq<Option<PoolQuote>>, i: int, amount: int, min1: int, min2: int)
    requires
        0 <= i,
        i + 1 < path.len(),
        exact_in_hops(path, pools, i, amount, min1) is Ok,
    ensures
        ({
            let rest = exact_in_hops(path, pools, i, amount, min1)->Ok_0;
            &&& min2 <= rest.last() ==> exact_in_hops(path, pools, i, amount, min2) == exact_in_hops(path, pools, i, amount, min1)
            &&& min2 > rest.last() ==> exact_in_hops(path, pools, i, amount, min2) == Err::<Seq<int>, RouterError>(RouterError::SlippageExceeded)
        }),
    decreases path.len() - i,
{
    let out = exact_in_step_spec(path, i, amount, pools[i], pools[i + 1] is Some, min1)->Ok_0;
    if i + 2 != path.len() {
        lemma_exact_in_hops_min_only_final(path, pools, i + 1, out, min1, min2);
        lemma_exact_in_hops_shape(path, pools, i + 1, out, min1);
        let rest = exact_in_hops(path, pools, i + 1, out, min1)->Ok_0;
        assert((seq![out] + rest).last() == rest.last());
    } else {
        assert(seq![out].last() == out);
    }
}

/// Only the final output of an exact-input swap is held to `amount_out_min`:
/// a swap that succeeds gives the same amounts for any minimum up to its
/// final output, and fails with `SlippageExceeded` for any minimum above it.
/// Intermediate amounts, in other tokens, are never compared with it.
pub proof fn lemma_exact_in_minimum_applies_to_final_output(
    factory_set: bool,
    ledger_sequence: u32,
    amount_in: int,
    min1: int,
    min2: int,
    path: Seq<Vec<u8>>,
    deadline: u64,
    pools: Seq<Option<PoolQuote>>,
)
    requires
        exact_in_spec(factory_set, ledger_sequence, amount_in, min1, path, deadline, pools) is Ok,
    ensures
        ({
            let amounts = exact_in_spec(factory_set, ledger_sequence, amount_in, min1, path, deadline, pools)->Ok_0;
            &&& min2 <= amounts.last() ==> exact_in_spec(factory_set, ledger_sequence, amount_in, min2, path, deadline, pools)
                == exact_in_spec(factory_set, ledger_sequence, amount_in, min1, path, deadline, pools)
            &&& min2 > amounts.last() ==> exact_in_spec(factory_set, ledger_sequence, amount_in, min2, path, deadline, pools)
                == Err::<Seq<int>, RouterError>(RouterError::SlippageExceeded)
        }),
{
    lemma_exact_in_hops_min_only_final(path, pools, 0, amount_in, min1, min2);
    lemma_exact_in_hops_shape(path, pools, 0, amount_in, min1);
    let rest = exact_in_hops(path, pools, 0, amount_in, min1)->Ok_0;
    assert((seq![amount_in] + rest).last() == rest.last());
}

/// An exact-input swap returns one amount per token of the path, starting
/// with the input and ending with an output of at least `amount_out_min`;
/// each amount is the constant-product output of the previous one.
pub proof fn lemma_exact_in_amounts(
    factory_set: bool,
    ledger_sequence: u32,
    amount_in: int,
    amount_out_min: int,
    path: Seq<Vec<u8>>,
    deadline: u64,
    pools: Seq<Option<PoolQuote>>,
)
    requires
        exact_in_spec(factory_set, ledger_sequence, amount_in, amount_out_min, path, deadline, pools) is Ok,
    ensures
        ({
            let amounts = exact_in_spec(factory_set, ledger_sequence, amount_in, amount_out_min, path, deadline, pools)->Ok_0;
            &&& !sequence_expired(ledger_sequence, deadline)
            &&& amounts.len() == path.len()
            &&& amounts[0] == amount_in
            &&& amounts.last() >= amount_out_min
        }),
{
    lemma_exact_in_hops_shape(path, pools, 0, amount_in, amount_out_min);
    let rest = exact_in_hops(path, pools, 0, amount_in, amount_out_min)->Ok_0;
    assert((seq![amount_in] + rest).last() == rest.last());
}

/// The backward amounts up to token `j`: `j + 1` of them, ending with the
/// amount to deliver, each the `get_amount_in` of the next.
proof fn lemma_exact_out_back_shape(path: Seq<Vec<u8>>, pools: Seq<Option<PoolQuote>>, j: int, amount: int)
    requires
        0 <= j < path.len(),
        exact_out_back(path, pools, j, amount) is Ok,
    ensures
        ({
            let p = exact_out_back(path, pools, j, amount)->Ok_0;
            &&& p.len() == j + 1
            &&& p.last() == amount
            &&& forall|k: int| 0 <= k < j ==> {
                &&& (#[trigger] pools[k]) is Some
                &&& amount_in_spec(p[k + 1], hop_reserves(pools[k].unwrap(), path[k]@, path[k + 1]@).0,
                    hop_reserves(pools[k].unwrap(), path[k]@, path[k + 1]@).1, pools[k].unwrap().fee_bps as int)
                    == Ok::<int, RouterError>(p[k])
            }
        }),
    decreases j,
{
    if j > 0 {
        let pool = pools[j - 1].unwrap();
        let (rin, rout) = hop_reserves(pool, path[j - 1]@, path[j]@);
        let needed = amount_in_spec(amount, rin, rout, pool.fee_bps as int)->Ok_0;
        lemma_exact_out_back_shape(path, pools, j - 1, needed);
        let prefix = exact_out_back(path, pools, j - 1, needed)->Ok_0;
        let p = prefix + seq![amount];
        assert forall|k: int| 0 <= k < j implies {
            &&& (#[trigger] pools[k]) is Some
            &&& amount_in_spec(p[k + 1], hop_reserves(pools[k].unwrap(), path[k]@, path[k + 1]@).0,
                hop_reserves(pools[k].unwrap(), path[k]@, path[k + 1]@).1, pools[k].unwrap().fee_bps as int)
                == Ok::<int, RouterError>(p[k])
        } by {
            if k < j - 1 {
                assert(p[k] == prefix[k]);
                assert(p[k + 1] == prefix[k + 1]);
            } else {
                assert(p[k + 1] == amount);
                assert(p[k] == prefix.last());
            }
        }
    }
}

/// An exact-output swap returns one amount per token of the path, ending
/// with exactly the requested output and starting with an input of at most
/// `amount_in_max`; with fees below 100%, each hop's input buys at least the
/// amount the next hop needs.
pub proof fn lemma_exact_out_amounts(
    factory_set: bool,
    ledger_sequence: u32,
    amount_out: int,
    amount_in_max: int,
    path: Seq<Vec<u8>>,
    deadline: u64,
    pools: Seq<Option<PoolQuote>>,
)
    requires
        exact_out_spec(factory_set, ledger_sequence, amount_out, amount_in_max, path, deadline, pools) is Ok,
    ensures
        ({
            let amounts = exact_out_spec(factory_set, ledger_sequence, amount_out, amount_in_max, path, deadline, pools)->Ok_0;
            &&& !sequence_expired(ledger_sequence, deadline)
            &&& amounts.len() == path.len()
            &&& amounts.last() == amount_out
            &&& amounts[0] <= amount_in_max
            &&& forall|k: int| 0 <= k < path.len() - 1 && (#[trigger] pools[k]).unwrap().fee_bps < 10000 ==> {
                let (rin, rout) = hop_reserves(pools[k].unwrap(), path[k]@, path[k + 1]@);
                amount_out_spec(amounts[k], rin, rout, pools[k].unwrap().fee_bps as int) matches Ok(got)
                    ==> got >= amounts[k + 1]
            }
        }),
{
    let n = path.len();
    lemma_exact_out_back_shape(path, pools, n - 1, amount_out);
    let amounts = exact_out_back(path, pools, n - 1, amount_out)->Ok_0;
    assert forall|k: int| 0 <= k < n - 1 && (#[trigger] pools[k]).unwrap().fee_bps < 10000 implies {
        let (rin, rout) = hop_reserves(pools[k].unwrap(), path[k]@, path[k + 1]@);
        amount_out_spec(amounts[k], rin, rout, pools[k].unwrap().fee_bps as int) matches Ok(got)
            ==> got >= amounts[k + 1]
    } by {
        let (rin, rout) = hop_reserves(pools[k].unwrap(), path[k]@, path[k + 1]@);
        crate::helpers::lemma_exact_output_is_covered(amounts[k + 1], rin, rout, pools[k].unwrap().fee_bps as int);
    }
}

/// Tells whether `swap_exact_tokens_for_tokens` would panic computing the
/// hops of `path` entered with `amount_in`.
pub fn exact_in_would_panic(path: &Vec<Vec<u8>>, pools: &Vec<Option<PoolQuote>>, amount_in: i128, amount_out_min: i128) -> (r: bool)
    requires
        path.len() >= 2 ==> pools.len() + 1 == path.len(),
    ensures
        r == exact_in_panics(path@, pools@, 0, amount_in as int, amount_out_min as int),
{
    if path.len() < 2 {
        return false;
    }
    let mut amount = amount_in;
    let mut i: usize = 0;
    while i + 1 < path.len()
        invariant
            path.len() >= 2,
            pools.len() + 1 == path.len(),
            0 <= i < path.len(),
            exact_in_panics(path@, pools@, 0, amount_in as int, amount_out_min as int)
                == exact_in_panics(path@, pools@, i as int, amount as int, amount_out_min as int),
        decreases path.len() - i,
    {
        let pool = match pools[i] {
            Some(p) => p,
            None => return false,
        };
        let (reserve_in, reserve_out) = if bytes_less(&path[i], &path[i + 1]) {
            (pool.reserve_a, pool.reserve_b)
        } else {
            (pool.reserve_b, pool.reserve_a)
        };
        if amount_out_would_panic(amount, reserve_in, reserve_out, pool.fee_bps) {
            return true;
        }
        let out = match get_amount_out(amount, reserve_in, reserve_out, pool.fee_bps) {
            Ok(o) => o,
            Err(_) => return false,
        };
        if i + 2 == path.len() || pools[i + 1].is_none() || bytes_equal(&path[i], &path[i + 1]) {
            return false;
        }
        amount = out;
        i = i + 1;
    }
    false
}

/// Tells whether `swap_tokens_for_exact_tokens` would panic computing the
/// inputs of `path` backwards from `amount_out`.
pub fn exact_out_would_panic(path: &Vec<Vec<u8>>, pools: &Vec<Option<PoolQuote>>, amount_out: i128) -> (r: bool)
    requires
        path.len() >= 2 ==> pools.len() + 1 == path.len(),
    ensures
        r == exact_out_panics(path@, pools@, path@.len() - 1, amount_out as int),
{
    if path.len() < 2 {
        return false;
    }
    let mut amount = amount_out;
    let mut j: usize = path.len() - 1;
    while j > 0
        invariant
            path.len() >= 2,
            pools.len() + 1 == path.len(),
            0 <= j < path.len(),
            exact_out_panics(path@, pools@, path@.len() - 1, amount_out as int)
                == exact_out_panics(path@, pools@, j as int, amount as int),
        decreases j,
    {
        let pool = match pools[j - 1] {
            Some(p) => p,
            None => return false,
        };
        let (reserve_in, reserve_out) = if bytes_less(&path[j - 1], &path[j]) {
            (pool.reserve_a, pool.reserve_b)
        } else {
            (pool.reserve_b, pool.reserve_a)
        };
        if amount_in_would_panic(amount, reserve_in, reserve_out, pool.fee_bps) {
            return true;
        }
        amount = match get_amount_in(amount, reserve_in, reserve_out, pool.fee_bps) {
            Ok(v) => v,
            Err(_) => return false,
        };
        j = j - 1;
    }
    false
}

/// Takes hop `i` of an exact-input swap entered with `amount`: `pool` is
/// what the hop's pair reports now, after the earlier hops' swaps, and
/// `next_found` whether the next hop's pair exists. Returns the hop's output.
pub fn exact_in_step(path: &Vec<Vec<u8>>, i: usize, amount: i128, pool: Option<PoolQuote>, next_found: bool, amount_out_min: i128) -> (r: Result<i128, RouterError>)
    requires
        i + 1 < path.len(),
        !exact_in_step_panics(path@, i as int, amount as int, pool),
    ensures
        int_result(r) == exact_in_step_spec(path@, i as int, amount as int, pool, next_found, amount_out_min as int),
{
    let q = match pool {
        Some(q) => q,
        None => return Err(RouterError::PairNotFound),
    };
    let (reserve_in, reserve_out) = if bytes_less(&path[i], &path[i + 1]) {
        (q.reserve_a, q.reserve_b)
    } else {
        (q.reserve_b, q.reserve_a)
    };
    let out = match get_amount_out(amount, reserve_in, reserve_out, q.fee_bps) {
        Ok(o) => o,
        Err(e) => return Err(e),
    };
    if i + 2 == path.len() {
        if out < amount_out_min {
            return Err(RouterError::SlippageExceeded);
        }
    } else if !next_found {
        return Err(RouterError::PairNotFound);
    }
    if bytes_equal(&path[i], &path[i + 1]) {
        return Err(RouterError::IdenticalTokens);
    }
    Ok(out)
}

/// Tells whether `exact_in_step` would panic on these arguments.
pub fn exact_in_step_would_panic(path: &Vec<Vec<u8>>, i: usize, amount: i128, pool: Option<PoolQuote>) -> (r: bool)
    requires
        i + 1 < path.len(),
    ensures
        r == exact_in_step_panics(path@, i as int, amount as int, pool),
{
    match pool {
        None => false,
        Some(q) => {
            let (reserve_in, reserve_out) = if bytes_less(&path[i], &path[i + 1]) {
                (q.reserve_a, q.reserve_b)
            } else {
                (q.reserve_b, q.reserve_a)
            };
            amount_out_would_panic(amount, reserve_in, reserve_out, q.fee_bps)
        },
    }
}

/// The amounts a pair must pay out on a hop: the output goes to the token
/// that is not `token_in`; `(amount_a_out, amount_b_out)` in the pair's order.
pub fn hop_outputs(token_in: &Vec<u8>, token_out: &Vec<u8>, amount_out: i128) -> (r: (i128, i128))
    ensures
        bytes_lt(token_in@, token_out@) ==> r == (0i128, amount_out),
        !bytes_lt(token_in@, token_out@) ==> r == (amount_out, 0i128),
{
    if bytes_less(token_in, token_out) {
        (0, amount_out)
    } else {
        (amount_out, 0)
    }
}

impl Router {
    /// A router with nothing stored.
    pub fn new() -> (r: Self)
        ensures
            r.factory is None,
            r.hubs@.len() == 0,
    {
        Router { factory: None, hubs: Vec::new() }
    }

    /// Records the factory to route through and the hub tokens.
    pub fn initialize(&mut self, factory: Vec<u8>, hubs: Vec<Vec<u8>>)
        ensures
            final(self).factory == Some(factory),
            final(self).hubs == hubs,
    {
        self.factory = Some(factory);
        self.hubs = hubs;
    }

    /// Replaces the hub tokens.
    pub fn set_hubs(&mut self, hubs: Vec<Vec<u8>>)
        ensures
            final(self).hubs == hubs,
            final(self).factory == old(self).factory,
    {
        self.hubs = hubs;
    }

    /// The factory, where one has been recorded.
    pub fn get_factory(&self) -> (r: Option<Vec<u8>>)
        ensures
            match self.factory {
                None => r is None,
                Some(f) => r matches Some(g) && g@ == f@,
            },
    {
        match &self.factory {
            Some(f) => Some(copy_bytes(f)),
            None => None,
        }
    }

    /// The hub tokens, empty where none were recorded.
    pub fn get_hubs(&self) -> (r: Vec<Vec<u8>>)
        ensures
            r@.len() == self.hubs@.len(),
            forall|i: int| 0 <= i < r@.len() ==> #[trigger] r@[i]@ == self.hubs@[i]@,
    {
        let mut r: Vec<Vec<u8>> = Vec::new();
        let mut i: usize = 0;
        while i < self.hubs.len()
            invariant
                0 <= i <= self.hubs.len(),
                r@.len() == i,
                forall|k: int| 0 <= k < i ==> #[trigger] r@[k]@ == self.hubs@[k]@,
            decreases self.hubs.len() - i,
        {
            r.push(copy_bytes(&self.hubs[i]));
            i = i + 1;
        }
        r
    }

    /// Swaps exactly `amount_in` of `path[0]` along `path`, given `pools[i]`,
    /// what the pair between `path[i]` and `path[i + 1]` reports (or `None`
    /// where the factory has no such pair). Returns every amount along the
    /// path; the last is the output, at least `amount_out_min`.
    pub fn swap_exact_tokens_for_tokens(
        &self,
        ledger_sequence: u32,
        amount_in: i128,
        amount_out_min: i128,
        path: &Vec<Vec<u8>>,
        deadline: u64,
        pools: &Vec<Option<PoolQuote>>,
    ) -> (r: Result<Vec<i128>, RouterError>)
        requires
            path.len() >= 2 ==> pools.len() + 1 == path.len(),
            !exact_in_panics(path@, pools@, 0, amount_in as int, amount_out_min as int),
        ensures
            int_seq_result(r) == exact_in_spec(self.factory is Some, ledger_sequence, amount_in as int,
                amount_out_min as int, path@, deadline, pools@),
    {
        match self.exact_in_start(ledger_sequence, amount_in, path, deadline) {
            Ok(()) => {},
            Err(e) => return Err(e),
        }
        let ghost total = exact_in_hops(path@, pools@, 0, amount_in as int, amount_out_min as int);
        let mut amounts: Vec<i128> = Vec::new();
        amounts.push(amount_in);
        let mut i: usize = 0;
        assert(amounts@.map_values(|x: i128| x as int) =~= seq![amount_in as int]);
        while i + 1 < path.len()
            invariant
                path.len() >= 2,
                pools.len() + 1 == path.len(),
                exact_in_start_spec(self.factory is Some, ledger_sequence, amount_in as int, path@.len() as int, deadline)
                    == Ok::<(), RouterError>(()),
                0 <= i < path.len(),
                amounts.len() == i + 1,
                total == exact_in_hops(path@, pools@, 0, amount_in as int, amount_out_min as int),
                !exact_in_panics(path@, pools@, i as int, amounts@[i as int] as int, amount_out_min as int),
                match exact_in_hops(path@, pools@, i as int, amounts@[i as int] as int, amount_out_min as int) {
                    Ok(rest) => total is Ok && seq![amount_in as int] + total->Ok_0
                        == amounts@.map_values(|x: i128| x as int) + rest,
                    Err(e) => total == Err::<Seq<int>, RouterError>(e),
                },
            decreases path.len() - i,
        {
            let next_found = if i + 2 < path.len() { pools[i + 1].is_some() } else { true };
            assert(exact_in_step_spec(path@, i as int, amounts@[i as int] as int, pools@[i as int], next_found, amount_out_min as int)
                == exact_in_step_spec(path@, i as int, amounts@[i as int] as int, pools@[i as int], pools@[i + 1] is Some, amount_out_min as int));
            let out = match exact_in_step(path, i, amounts[i], pools[i], next_found, amount_out_min) {
                Ok(o) => o,
                Err(e) => return Err(e),
            };
            let ghost before = amounts@.map_values(|x: i128| x as int);
            amounts.push(out);
            proof {
                assert(amounts@.map_values(|x: i128| x as int) =~= before + seq![out as int]);
                if i + 2 == path.len() {
                    assert(exact_in_hops(path@, pools@, i + 1, out as int, amount_out_min as int) == Ok::<Seq<int>, RouterError>(Seq::empty()));
                    assert(seq![out as int] =~= seq![out as int] + Seq::<int>::empty());
                }
                match exact_in_hops(path@, pools@, i + 1, out as int, amount_out_min as int) {
                    Ok(rest) => {
                        assert(before + seq![out as int] + rest =~= before + (seq![out as int] + rest));
                    },
                    Err(_) => {},
                }
            }
            i = i + 1;
        }
        proof {
            assert(exact_in_hops(path@, pools@, i as int, amounts@[i as int] as int, amount_out_min as int)
                == Ok::<Seq<int>, RouterError>(Seq::empty()));
            assert(amounts@.map_values(|x: i128| x as int) + Seq::<int>::empty() =~= amounts@.map_values(|x: i128| x as int));
        }
        Ok(amounts)
    }

    /// The checks of an exact-input swap made before its first hop: the
    /// deadline, a positive input, a path of at least two tokens and a
    /// recorded factory.
    pub fn exact_in_start(&self, ledger_sequence: u32, amount_in: i128, path: &Vec<Vec<u8>>, deadline: u64) -> (r: Result<(), RouterError>)
        ensures
            r == exact_in_start_spec(self.factory is Some, ledger_sequence, amount_in as int, path@.len() as int, deadline),
    {
        if ledger_sequence > #[verifier::truncate] (deadline as u32) {
            return Err(RouterError::TransactionExpired);
        }
        if amount_in <= 0 {
            return Err(RouterError::ZeroAmount);
        }
        if path.len() < 2 {
            return Err(RouterError::InvalidPath);
        }
        if self.factory.is_none() {
            return Err(RouterError::PairNotFound);
        }
        Ok(())
    }

    /// Swaps as little of `path[0]` as needed to receive exactly
    /// `amount_out` of the last token, at most `amount_in_max`. The amounts
    /// are computed backwards from the output with `get_amount_in`; returns
    /// every amount along the path, the first being the input.
    pub fn swap_tokens_for_exact_tokens(
        &self,
        ledger_sequence: u32,
        amount_out: i128,
        amount_in_max: i128,
        path: &Vec<Vec<u8>>,
        deadline: u64,
        pools: &Vec<Option<PoolQuote>>,
    ) -> (r: Result<Vec<i128>, RouterError>)
        requires
            path.len() >= 2 ==> pools.len() + 1 == path.len(),
            !exact_out_panics(path@, pools@, path@.len() - 1, amount_out as int),
        ensures
            int_seq_result(r) == exact_out_spec(self.factory is Some, ledger_sequence, amount_out as int,
                amount_in_max as int, path@, deadline, pools@),
    {
        if ledger_sequence > #[verifier::truncate] (deadline as u32) {
            return Err(RouterError::TransactionExpired);
        }
        if amount_out <= 0 {
            return Err(RouterError::ZeroAmount);
        }
        if path.len() < 2 {
            return Err(RouterError::InvalidPath);
        }
        if self.factory.is_none() {
            return Err(RouterError::PairNotFound);
        }
        let n = path.len();
        let ghost total = exact_out_back(path@, pools@, n - 1, amount_out as int);
        let mut amounts: Vec<i128> = Vec::new();
        amounts.push(amount_out);
        let mut j: usize = n - 1;
        assert(amounts@.map_values(|x: i128| x as int).drop_first() =~= Seq::<int>::empty());
        assert(seq![amount_out as int] + Seq::<int>::empty() =~= seq![amount_out as int]);
        while j > 0
            invariant
                n == path.len(),
                n >= 2,
                pools.len() + 1 == n,
                !sequence_expired(ledger_sequence, deadline),
                amount_out > 0,
                self.factory is Some,
                0 <= j < n,
                amounts.len() == n - j,
                amounts.len() >= 1,
                total == exact_out_back(path@, pools@, n - 1, amount_out as int),
                !exact_out_panics(path@, pools@, j as int, amounts@[0] as int),
                match exact_out_back(path@, pools@, j as int, amounts@[0] as int) {
                    Ok(prefix) => total == Ok::<Seq<int>, RouterError>(prefix + amounts@.map_values(|x: i128| x as int).drop_first()),
                    Err(e) => total == Err::<Seq<int>, RouterError>(e),
                },
            decreases j,
        {
            let pool = match pools[j - 1] {
                Some(p) => p,
                None => return Err(RouterError::PairNotFound),
            };
            let (reserve_in, reserve_out) = if bytes_less(&path[j - 1], &path[j]) {
                (pool.reserve_a, pool.reserve_b)
            } else {
                (pool.reserve_b, pool.reserve_a)
            };
            let needed = match get_amount_in(amounts[0], reserve_in, reserve_out, pool.fee_bps) {
                Ok(v) => v,
                Err(e) => return Err(e),
            };
            let ghost before = amounts@.map_values(|x: i128| x as int);
            amounts.insert(0, needed);
            proof {
                let now = amounts@.map_values(|x: i128| x as int);
                assert(now =~= seq![needed as int] + before);
                assert(now.drop_first() =~= before);
                match exact_out_back(path@, pools@, j - 1, needed as int) {
                    Ok(prefix) => {
                        assert(prefix + seq![before[0]] + before.drop_first() =~= prefix + before);
                    },
                    Err(_) => {},
                }
            }
            j = j - 1;
        }
        proof {
            assert(exact_out_back(path@, pools@, 0, amounts@[0] as int) == Ok::<Seq<int>, RouterError>(seq![amounts@[0] as int]));
            assert(seq![amounts@[0] as int] + amounts@.map_values(|x: i128| x as int).drop_first()
                =~= amounts@.map_values(|x: i128| x as int));
        }
        if amounts[0] > amount_in_max {
            return Err(RouterError::ExcessiveInputAmount);
        }
        let mut i: usize = 0;
        while i + 1 < n
            invariant
                n == path.len(),
                n >= 2,
                !sequence_expired(ledger_sequence, deadline),
                amount_out > 0,
                self.factory is Some,
                total == exact_out_back(path@, pools@, n - 1, amount_out as int),
                total == Ok::<Seq<int>, RouterError>(amounts@.map_values(|x: i128| x as int)),
                amounts.len() >= 1,
                amounts@[0] <= amount_in_max,
                0 <= i < n,
                forall|k: int| 0 <= k < i ==> #[trigger] path@[k]@ != path@[k + 1]@,
            decreases n - i,
        {
            if bytes_equal(&path[i], &path[i + 1]) {
                assert(has_repeated_hop(path@));
                return Err(RouterError::IdenticalTokens);
            }
            i = i + 1;
        }
        assert(!has_repeated_hop(path@));
        Ok(amounts)
    }

    /// Decides the deposit for adding liquidity to the pair of `token_a` and
    /// `token_b`, given the reserves that pair reports (in its own order), or
    /// `None` where the factory has no such pair.
    pub fn add_liquidity(
        &self,
        timestamp: u64,
        token_a: &Vec<u8>,
        token_b: &Vec<u8>,
        amount_a_desired: i128,
        amount_b_desired: i128,
        amount_a_min: i128,
        amount_b_min: i128,
        deadline: u64,
        reserves: Option<(i128, i128)>,
    ) -> (r: Result<(i128, i128), RouterError>)
        requires
            reserves matches Some((ra, rb)) ==> !optimal_amounts_panics(amount_a_desired as int, amount_b_desired as int,
                ra as int, rb as int),
        ensures
            int_pair_result(r) == add_liquidity_spec(self.factory is Some, timestamp, token_a@, token_b@,
                amount_a_desired as int, amount_b_desired as int, amount_a_min as int, amount_b_min as int,
                deadline, reserves),
    {
        if deadline < timestamp {
            return Err(RouterError::Expired);
        }
        if amount_a_desired <= 0 || amount_b_desired <= 0 {
            return Err(RouterError::ZeroAmount);
        }
        if bytes_equal(token_a, token_b) {
            return Err(RouterError::IdenticalTokens);
        }
        if self.factory.is_none() {
            return Err(RouterError::PairNotFound);
        }
        match reserves {
            None => Err(RouterError::PairNotFound),
            Some((ra, rb)) => compute_optimal_amounts(amount_a_desired, amount_b_desired, amount_a_min, amount_b_min, ra, rb),
        }
    }

    /// The checks of removing liquidity made before the LP tokens are burned;
    /// `pair_found` says whether the factory has a pair for the two tokens.
    pub fn remove_liquidity(
        &self,
        timestamp: u64,
        token_a: &Vec<u8>,
        token_b: &Vec<u8>,
        liquidity: i128,
        deadline: u64,
        pair_found: bool,
    ) -> (r: Result<(), RouterError>)
        ensures
            r == remove_liquidity_spec(self.factory is Some, timestamp, token_a@, token_b@, liquidity as int,
                deadline, pair_found),
    {
        if deadline < timestamp {
            return Err(RouterError::Expired);
        }
        if liquidity <= 0 {
            return Err(RouterError::ZeroAmount);
        }
        if bytes_equal(token_a, token_b) {
            return Err(RouterError::IdenticalTokens);
        }
        if self.factory.is_none() || !pair_found {
            return Err(RouterError::PairNotFound);
        }
        Ok(())
    }
}

/// Accepts the amounts a burn returned only if both meet their minimums.
pub fn check_removed_amounts(amount_a: i128, amount_b: i128, amount_a_min: i128, amount_b_min: i128) -> (r: Result<(i128, i128), RouterError>)
    ensures
        amount_a < amount_a_min || amount_b < amount_b_min ==> r == Err::<(i128, i128), RouterError>(RouterError::InsufficientOutputAmount),
        !(amount_a < amount_a_min || amount_b < amount_b_min) ==> r == Ok::<(i128, i128), RouterError>((amount_a, amount_b)),
{
    if amount_a < amount_a_min || amount_b < amount_b_min {
        return Err(RouterError::InsufficientOutputAmount);
    }
    Ok((amount_a, amount_b))
}

} // verus!
