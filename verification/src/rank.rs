//! Rank model: ranks are signed integers, and a *lower* numeric value means
//! *higher* privilege. An actor is elevated over a target exactly when the
//! actor's rank is strictly below the target's; equal rank is never elevated.

use vstd::prelude::*;

verus! {

/// Outcome of comparing two ranks within the same server.
#[derive(Clone, Copy, Debug, PartialEq, Eq, Structural)]
pub enum RankOrder {
    /// The first rank is more privileged (numerically smaller).
    Higher,
    /// Both ranks are equally privileged.
    Equal,
    /// The first rank is less privileged (numerically larger).
    Lower,
}

pub open spec fn spec_compare(a_rank: i64, b_rank: i64) -> RankOrder {
    if a_rank < b_rank {
        RankOrder::Higher
    } else if a_rank == b_rank {
        RankOrder::Equal
    } else {
        RankOrder::Lower
    }
}

/// Total ordering used for every elevation check.
pub fn compare(a_rank: i64, b_rank: i64) -> (r: RankOrder)
    ensures
        r == spec_compare(a_rank, b_rank),
{
    if a_rank < b_rank {
        RankOrder::Higher
    } else if a_rank == b_rank {
        RankOrder::Equal
    } else {
        RankOrder::Lower
    }
}

pub open spec fn spec_is_elevated_over(actor_rank: i64, target_rank: i64) -> bool {
    actor_rank < target_rank
}

/// An actor may act on a target only when strictly more privileged: equal
/// rank is never elevated.
pub fn is_elevated_over(actor_rank: i64, target_rank: i64) -> (r: bool)
    ensures
        r == spec_is_elevated_over(actor_rank, target_rank),
{
    actor_rank < target_rank
}

/// `r` is the effective rank derived from `ranks`: the minimum (i.e. most
/// privileged) of the given ranks, or `i64::MIN` (maximal privilege) when the
/// member holds no role at all.
pub open spec fn is_effective_rank(ranks: Seq<i64>, r: i64) -> bool {
    if ranks.len() == 0 {
        r == i64::MIN
    } else {
        &&& ranks.contains(r)
        &&& forall|i: int| 0 <= i < ranks.len() ==> r <= #[trigger] ranks[i]
    }
}

/// Effective rank of a member holding roles with the given ranks: the most
/// privileged (minimum) one, or `i64::MIN` when there is none.
pub fn effective_rank(ranks: &Vec<i64>) -> (r: i64)
    ensures
        is_effective_rank(ranks@, r),
{
    if ranks.len() == 0 {
        return i64::MIN;
    }
    let mut r: i64 = ranks[0];
    let mut i: usize = 1;
    while i < ranks.len()
        invariant
            1 <= i <= ranks@.len(),
            ranks@.contains(r),
            forall|j: int| 0 <= j < i ==> r <= #[trigger] ranks@[j],
        decreases ranks@.len() - i,
    {
        if ranks[i] < r {
            r = ranks[i];
            assert(ranks@.contains(r)) by {
                assert(ranks@[i as int] == r);
            }
        }
        i = i + 1;
    }
    r
}

} // verus!
