//! Addresses as their canonical byte encodings, ordered lexicographically
//! (the order in which the ledger sorts them), and the canonical ordering of
//! a token pair.
use vstd::prelude::*;
use crate::errors::RouterError;

verus! {

/// `a` sorts strictly before `b`: lexicographic order on bytes, a proper
/// prefix sorting first.
pub open spec fn bytes_lt(a: Seq<u8>, b: Seq<u8>) -> bool
    decreases a.len(),
{
    if a.len() == 0 {
        b.len() > 0
    } else if b.len() == 0 {
        false
    } else if a[0] != b[0] {
        a[0] < b[0]
    } else {
        bytes_lt(a.drop_first(), b.drop_first())
    }
}

/// No address sorts before itself.
pub proof fn lemma_bytes_lt_irreflexive(a: Seq<u8>)
    ensures
        !bytes_lt(a, a),
    decreases a.len(),
{
    if a.len() > 0 {
        lemma_bytes_lt_irreflexive(a.drop_first());
    }
}

/// Of two distinct addresses exactly one sorts first.
pub proof fn lemma_bytes_lt_total(a: Seq<u8>, b: Seq<u8>)
    ensures
        a != b <==> (bytes_lt(a, b) != bytes_lt(b, a)),
    decreases a.len(),
{
    if a.len() == 0 || b.len() == 0 {
        if a.len() == 0 && b.len() == 0 {
            assert(a =~= b);
        }
    } else if a[0] != b[0] {
    } else {
        lemma_bytes_lt_total(a.drop_first(), b.drop_first());
        if a.drop_first() == b.drop_first() {
            assert(a =~= seq![a[0]] + a.drop_first());
            assert(b =~= seq![b[0]] + b.drop_first());
        } else {
            assert(a != b);
        }
    }
}

/// The order is transitive.
pub proof fn lemma_bytes_lt_transitive(a: Seq<u8>, b: Seq<u8>, c: Seq<u8>)
    requires
        bytes_lt(a, b),
        bytes_lt(b, c),
    ensures
        bytes_lt(a, c),
    decreases a.len(),
{
    if a.len() > 0 && b.len() > 0 && c.len() > 0 && a[0] == b[0] && b[0] == c[0] {
        lemma_bytes_lt_transitive(a.drop_first(), b.drop_first(), c.drop_first());
    }
}

/// Compares two addresses for equality.
pub fn bytes_equal(a: &Vec<u8>, b: &Vec<u8>) -> (r: bool)
    ensures
        r == (a@ == b@),
{
    if a.len() != b.len() {
        return false;
    }
    let mut i: usize = 0;
    while i < a.len()
        invariant
            a.len() == b.len(),
            0 <= i <= a.len(),
            forall|j: int| 0 <= j < i ==> a@[j] == b@[j],
        decreases a.len() - i,
    {
        if a[i] != b[i] {
            return false;
        }
        i = i + 1;
    }
    assert(a@ =~= b@);
    true
}

/// Tests whether `a` sorts strictly before `b`.
pub fn bytes_less(a: &Vec<u8>, b: &Vec<u8>) -> (r: bool)
    ensures
        r == bytes_lt(a@, b@),
{
    let mut i: usize = 0;
    assert(a@.skip(0) =~= a@);
    assert(b@.skip(0) =~= b@);
    while i < a.len() && i < b.len()
        invariant
            0 <= i <= a.len(),
            i <= b.len(),
            bytes_lt(a@, b@) == bytes_lt(a@.skip(i as int), b@.skip(i as int)),
        decreases a.len() - i,
    {
        let x = a[i];
        let y = b[i];
        proof {
            assert(a@.skip(i as int)[0] == x);
            assert(b@.skip(i as int)[0] == y);
            assert(a@.skip(i as int).drop_first() =~= a@.skip(i + 1));
            assert(b@.skip(i as int).drop_first() =~= b@.skip(i + 1));
        }
        if x != y {
            return x < y;
        }
        i = i + 1;
    }
    i < b.len()
}

/// Copies an address.
pub fn copy_bytes(a: &Vec<u8>) -> (r: Vec<u8>)
    ensures
        r@ == a@,
{
    let mut r: Vec<u8> = Vec::new();
    let mut i: usize = 0;
    while i < a.len()
        invariant
            0 <= i <= a.len(),
            r@ == a@.take(i as int),
        decreases a.len() - i,
    {
        r.push(a[i]);
        i = i + 1;
        assert(r@ =~= a@.take(i as int));
    }
    assert(a@.take(a.len() as int) =~= a@);
    r
}

/// The two tokens of a pair in canonical order, or the error for identical tokens.
pub open spec fn sorted_pair(a: Seq<u8>, b: Seq<u8>) -> Result<(Seq<u8>, Seq<u8>), RouterError> {
    if a == b {
        Err(RouterError::IdenticalTokens)
    } else if bytes_lt(a, b) {
        Ok((a, b))
    } else {
        Ok((b, a))
    }
}

/// The view of a sorted token pair.
pub open spec fn pair_view(r: Result<(Vec<u8>, Vec<u8>), RouterError>) -> Result<(Seq<u8>, Seq<u8>), RouterError> {
    match r {
        Ok((x, y)) => Ok((x@, y@)),
        Err(e) => Err(e),
    }
}

/// Sorts token addresses into canonical lexicographic order.
pub fn sort_tokens(token_a: &Vec<u8>, token_b: &Vec<u8>) -> (r: Result<(Vec<u8>, Vec<u8>), RouterError>)
    ensures
        pair_view(r) == sorted_pair(token_a@, token_b@),
{
    if bytes_equal(token_a, token_b) {
        return Err(RouterError::IdenticalTokens);
    }
    if bytes_less(token_a, token_b) {
        Ok((copy_bytes(token_a), copy_bytes(token_b)))
    } else {
        Ok((copy_bytes(token_b), copy_bytes(token_a)))
    }
}

/// Sorting puts the smaller address first, and the result does not depend on
/// the order in which the two tokens are given.
pub proof fn lemma_sort_tokens_canonical(a: Seq<u8>, b: Seq<u8>)
    requires
        a != b,
    ensures
        sorted_pair(a, b) is Ok,
        bytes_lt(sorted_pair(a, b)->Ok_0.0, sorted_pair(a, b)->Ok_0.1),
        sorted_pair(a, b) == sorted_pair(b, a),
        (sorted_pair(a, b)->Ok_0.0 == a && sorted_pair(a, b)->Ok_0.1 == b)
            || (sorted_pair(a, b)->Ok_0.0 == b && sorted_pair(a, b)->Ok_0.1 == a),
{
    lemma_bytes_lt_total(a, b);
}

} // verus!
