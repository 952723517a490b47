//! The quadratic score of a list of contributions.

use crate::sqrt::{floor_sqrt, isqrt};
use crate::types::{AccountId, Balance, VoteDetails};
use vstd::prelude::*;

verus! {

/// A contribution as the ledger holds it.
pub type Vote = VoteDetails<AccountId, Balance>;

/// The sum of the floor square roots of the contributions.
pub open spec fn root_sum(votes: Seq<Vote>) -> nat
    decreases votes.len(),
{
    if votes.len() == 0 {
        0
    } else {
        root_sum(votes.drop_last()) + isqrt(votes.last().balance as nat)
    }
}

/// The quadratic score: the square of the sum of the roots.
pub open spec fn score(votes: Seq<Vote>) -> nat {
    root_sum(votes) * root_sum(votes)
}

/// One more contribution adds its root to the sum.
pub proof fn lemma_root_sum_push(votes: Seq<Vote>, vote: Vote)
    ensures
        root_sum(votes.push(vote)) == root_sum(votes) + isqrt(vote.balance as nat),
{
    assert(votes.push(vote).drop_last() =~= votes);
}

/// The score fits in 128 bits exactly when the sum of the roots fits in 64.
pub proof fn lemma_score_fits(votes: Seq<Vote>)
    ensures
        score(votes) <= u128::MAX <==> root_sum(votes) <= u64::MAX,
{
    let s = root_sum(votes);
    if s <= u64::MAX {
        assert(s * s <= u128::MAX) by (nonlinear_arith)
            requires
                s <= 0xffff_ffff_ffff_ffff,
        ;
    } else {
        assert(s * s > u128::MAX) by (nonlinear_arith)
            requires
                s >= 0x1_0000_0000_0000_0000,
        ;
    }
}

/// Up to 2^32 contributions of less than 2^64 each have a score that
/// fits in 128 bits.
pub proof fn lemma_small_contributions_fit(votes: Seq<Vote>)
    requires
        votes.len() <= 0x1_0000_0000,
        forall|i: int| 0 <= i < votes.len() ==> (#[trigger] votes[i]).balance <= u64::MAX,
    ensures
        root_sum(votes) <= votes.len() * 0xffff_ffff,
        score(votes) <= u128::MAX,
    decreases votes.len(),
{
    if votes.len() > 0 {
        lemma_small_contributions_fit(votes.drop_last());
        crate::sqrt::lemma_isqrt_below(votes.last().balance as nat, 0x1_0000_0000);
        assert(votes.len() * 0xffff_ffff == (votes.len() - 1) * 0xffff_ffff + 0xffff_ffff)
            by (nonlinear_arith);
    }
    assert(votes.len() * 0xffff_ffff <= u64::MAX) by (nonlinear_arith)
        requires
            votes.len() <= 0x1_0000_0000,
    ;
    lemma_score_fits(votes);
}

/// Computes the sum of the floor square roots of the contributions.
pub fn sum_of_roots(votes: &Vec<Vote>) -> (sum: u128)
    ensures
        sum == root_sum(votes@),
{
    let mut sum: u128 = 0;
    let mut i: usize = 0;
    while i < votes.len()
        invariant
            i <= votes.len(),
            sum == root_sum(votes@.take(i as int)),
            sum <= i * u64::MAX,
        decreases votes.len() - i,
    {
        let root = floor_sqrt(votes[i].balance);
        proof {
            assert(votes@.take(i + 1) =~= votes@.take(i as int).push(votes@[i as int]));
            lemma_root_sum_push(votes@.take(i as int), votes@[i as int]);
            assert((i + 1) * u64::MAX == i * u64::MAX + u64::MAX) by (nonlinear_arith);
            assert((i + 1) * u64::MAX <= u128::MAX) by (nonlinear_arith)
                requires
                    i + 1 <= 0xffff_ffff_ffff_ffff,
            ;
        }
        sum = sum + root;
        i = i + 1;
    }
    proof {
        assert(votes@.take(i as int) =~= votes@);
    }
    sum
}

} // verus!
