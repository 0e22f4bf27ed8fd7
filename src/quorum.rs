//! Byzantine quorum arithmetic.
use vstd::prelude::*;

verus! {

/// Smallest number of votes that is strictly more than two thirds of `n`.
pub open spec fn threshold_spec(n: nat) -> nat {
    (2 * n) / 3 + 1
}

/// The quorum threshold of a validator set of `n` members: `floor(2n/3) + 1`.
pub fn threshold(n: u64) -> (r: u64)
    ensures
        r == threshold_spec(n as nat),
        r <= n || n == 0,
{
    let twice: u128 = 2 * (n as u128);
    ((twice / 3) + 1) as u64
}

/// A threshold is more than two thirds of the set: `3 * threshold(n) > 2 * n`,
/// and for a non-empty set it is at most `n`.
pub proof fn lemma_threshold_bounds(n: nat)
    ensures
        3 * threshold_spec(n) > 2 * n,
        n >= 1 ==> threshold_spec(n) <= n,
{
}

/// Two groups of validators that each reach the threshold cannot be disjoint:
/// their sizes add up to more than `n`.
pub proof fn lemma_two_quorums_overlap(n: nat, a: nat, b: nat)
    requires
        a >= threshold_spec(n),
        b >= threshold_spec(n),
    ensures
        a + b > n,
{
}

} // verus!
