//! Properties of the claim protocol proved once and for all: what a
//! claim is worth, and that a committed payout is spent for good.

use vstd::prelude::*;

use crate::claim::{claim_amount_of, commit_transition, commit_would_apply};
use crate::model::{
    claimable_of, commit_index, is_commit_match, is_unclaimed_match, lemma_commit_index_props,
    mark_claimed, matching_count, Contact, Payout,
};
use crate::store::NearDrop;

verus! {

/// The matching count is zero exactly when no unclaimed payout of `s` is
/// addressed to `c`.
pub proof fn lemma_count_zero_iff_no_match(s: Seq<Payout>, c: Contact)
    ensures
        (matching_count(s, c) == 0) <==> (forall|j: int|
            0 <= j < s.len() ==> !is_unclaimed_match(#[trigger] s[j], c)),
    decreases s.len(),
{
    if s.len() == 0 {
    } else {
        lemma_count_zero_iff_no_match(s.drop_last(), c);
        assert(s.last() == s[s.len() - 1]);
        if matching_count(s, c) == 0 {
            assert forall|j: int| 0 <= j < s.len() implies !is_unclaimed_match(
                #[trigger] s[j],
                c,
            ) by {
                if j < s.len() - 1 {
                    assert(s.drop_last()[j] == s[j]);
                    assert(!is_unclaimed_match(s.drop_last()[j], c));
                }
            }
        }
        if forall|j: int| 0 <= j < s.len() ==> !is_unclaimed_match(#[trigger] s[j], c) {
            assert forall|j: int| 0 <= j < s.drop_last().len() implies !is_unclaimed_match(
                #[trigger] s.drop_last()[j],
                c,
            ) by {
                assert(s.drop_last()[j] == s[j]);
            }
            assert(matching_count(s.drop_last(), c) == 0);
            assert(!is_unclaimed_match(s.last(), c));
        }
    }
}

/// What a claim is worth: when exactly one unclaimed payout of `s`
/// matches `c`, `claimable_of` is that payout's amount — and that payout
/// is unique; in every other case (no match, or an ambiguous duplicate)
/// it is zero.
pub proof fn lemma_claimable_unique_match(s: Seq<Payout>, c: Contact)
    ensures
        matching_count(s, c) == 1 ==> exists|i: int|
            0 <= i < s.len() && is_unclaimed_match(#[trigger] s[i], c) && claimable_of(s, c)
                == s[i].amount && (forall|j: int|
                0 <= j < s.len() && is_unclaimed_match(#[trigger] s[j], c) ==> j == i),
        matching_count(s, c) != 1 ==> claimable_of(s, c) == 0,
    decreases s.len(),
{
    if matching_count(s, c) == 1 {
        assert(s.len() > 0);
        assert(forall|j: int| 0 <= j < s.len() - 1 ==> #[trigger] s.drop_last()[j] == s[j]);
        if is_unclaimed_match(s.last(), c) {
            let i = s.len() - 1 as int;
            lemma_count_zero_iff_no_match(s.drop_last(), c);
            assert(is_unclaimed_match(s[i], c));
            assert(claimable_of(s, c) == s[i].amount);
            assert forall|j: int|
                0 <= j < s.len() && is_unclaimed_match(#[trigger] s[j], c) implies j == i by {
                if j < s.len() - 1 {
                    assert(s.drop_last()[j] == s[j]);
                    assert(!is_unclaimed_match(s.drop_last()[j], c));
                }
            }
        } else {
            lemma_claimable_unique_match(s.drop_last(), c);
            let i = choose|i: int|
                0 <= i < s.drop_last().len() && is_unclaimed_match(
                    #[trigger] s.drop_last()[i],
                    c,
                ) && claimable_of(s.drop_last(), c) == s.drop_last()[i].amount && (forall|j: int|
                    0 <= j < s.drop_last().len() && is_unclaimed_match(
                        #[trigger] s.drop_last()[j],
                        c,
                    ) ==> j == i);
            assert(is_unclaimed_match(s[i], c));
            assert(claimable_of(s, c) == s[i].amount);
            assert forall|j: int|
                0 <= j < s.len() && is_unclaimed_match(#[trigger] s[j], c) implies j == i by {
                if j < s.len() - 1 {
                    assert(is_unclaimed_match(s.drop_last()[j], c));
                }
            }
        }
    }
}

/// Marking an unclaimed matching payout claimed lowers the matching
/// count by exactly one.
pub proof fn lemma_matching_count_update_claimed(s: Seq<Payout>, c: Contact, i: int)
    requires
        0 <= i < s.len(),
        is_unclaimed_match(s[i], c),
    ensures
        matching_count(s.update(i, mark_claimed(s[i])), c) == matching_count(s, c) - 1,
    decreases s.len(),
{
    let t = s.update(i, mark_claimed(s[i]));
    if i == s.len() - 1 {
        assert(t.drop_last() =~= s.drop_last());
        assert(t.last() == mark_claimed(s[i]));
    } else {
        assert(t.last() == s.last());
        assert(s.drop_last()[i] == s[i]);
        assert(t.drop_last() =~= s.drop_last().update(i, mark_claimed(s.drop_last()[i])));
        lemma_matching_count_update_claimed(s.drop_last(), c, i);
    }
}

/// Once the commit step marks the payout it found, nothing remains
/// claimable in that payout list for the same contact — given the
/// intended use that at most one unclaimed payout of the list was
/// addressed to the contact.
pub proof fn lemma_commit_clears_claimable(s: Seq<Payout>, c: Contact, amount: u128)
    requires
        matching_count(s, c) <= 1,
        commit_index(s, c, amount) >= 0,
    ensures
        claimable_of(
            s.update(commit_index(s, c, amount), mark_claimed(s[commit_index(s, c, amount)])),
            c,
        ) == 0,
{
    let i = commit_index(s, c, amount);
    lemma_commit_index_props(s, c, amount);
    assert(is_unclaimed_match(s[i], c));
    lemma_count_zero_iff_no_match(s, c);
    assert(matching_count(s, c) == 1);
    lemma_matching_count_update_claimed(s, c, i);
}

/// A claim worth something can always be committed, as long as nothing
/// intervenes: whenever `claim_amount_of` is positive, the commit step
/// run against the same state for that amount finds its payout. With the
/// step contracts this carries a fresh claim through verification and a
/// successful transfer to a successful commit.
pub proof fn lemma_positive_claim_can_commit(nd: NearDrop, drop_id: u64, c: Contact)
    requires
        claim_amount_of(nd, drop_id, c) > 0,
    ensures
        commit_would_apply(nd, drop_id, c, claim_amount_of(nd, drop_id, c)),
{
    let amount = claim_amount_of(nd, drop_id, c);
    let s = nd.drops@[drop_id as int].payouts@;
    lemma_claimable_unique_match(s, c);
    assert(matching_count(s, c) == 1);
    let i = choose|i: int|
        0 <= i < s.len() && is_unclaimed_match(#[trigger] s[i], c) && claimable_of(s, c)
            == s[i].amount && (forall|j: int|
            0 <= j < s.len() && is_unclaimed_match(#[trigger] s[j], c) ==> j == i);
    assert(is_commit_match(s[i], c, amount));
    lemma_commit_index_props(s, c, amount);
    if commit_index(s, c, amount) < 0 {
        assert(!is_commit_match(s[i], c, amount));
        assert(false);
    }
}

/// A committed claim is spent permanently: after a successful transfer
/// and commit for `(drop_id, c)`, the marked payout's claimed flag is set
/// and a later claim of the same contact against that drop is worth
/// zero. Holds under the intended use that at most one unclaimed payout
/// of the drop was addressed to the contact.
pub proof fn lemma_committed_claim_is_spent(
    pre: NearDrop,
    post: NearDrop,
    drop_id: u64,
    c: Contact,
    amount: u128,
)
    requires
        commit_transition(pre, post, drop_id, c, amount),
        matching_count(pre.drops@[drop_id as int].payouts@, c) <= 1,
    ensures
        claim_amount_of(post, drop_id, c) == 0,
        post.drops@[drop_id as int].payouts@[commit_index(
            pre.drops@[drop_id as int].payouts@,
            c,
            amount,
        )].claimed,
{
    let s = pre.drops@[drop_id as int].payouts@;
    lemma_commit_index_props(s, c, amount);
    lemma_commit_clears_claimable(s, c, amount);
}

} // verus!

