//! The claim protocol core. A claim runs as three host-serialized steps —
//! ownership verification, value transfer, local commit — each suspended
//! on an outside collaborator. This module holds every decision: what a
//! claim is worth, whether to request verification, whether to request the
//! transfer, and how the commit changes the store. The host performs the
//! requests and feeds each outcome back as a plain value.

use vstd::prelude::*;

use crate::model::{
    claimable_of, commit_index, is_commit_match, lemma_commit_index_is_first,
    lemma_commit_index_none, mark_claimed, matching_amount, matching_count, Contact,
};
use crate::store::NearDrop;

verus! {

/// The immutable context a suspended claim carries between protocol steps.
pub struct ClaimContext {
    pub drop_id: u64,
    pub recipient_account_id: String,
    pub recipient_contact: Contact,
    pub balance_to_claim: u128,
}

/// What a claim against drop `drop_id` is worth in state `nd`: the amount
/// of the single matching unclaimed payout, or zero when the drop does not
/// exist or none or several payouts match.
pub open spec fn claim_amount_of(nd: NearDrop, drop_id: u64, c: Contact) -> u128 {
    if (drop_id as int) < nd.drops@.len() {
        claimable_of(nd.drops@[drop_id as int].payouts@, c)
    } else {
        0
    }
}

/// The commit step applies in `nd`: the drop exists and holds an unclaimed
/// payout addressed to `c` of exactly `amount`.
pub open spec fn commit_would_apply(nd: NearDrop, drop_id: u64, c: Contact, amount: u128) -> bool {
    &&& (drop_id as int) < nd.drops@.len()
    &&& commit_index(nd.drops@[drop_id as int].payouts@, c, amount) >= 0
}

/// How a successful commit changes the store: the first unclaimed payout
/// of the drop matching `(c, amount)` is marked claimed, and nothing else
/// changes.
pub open spec fn commit_transition(
    pre: NearDrop,
    post: NearDrop,
    drop_id: u64,
    c: Contact,
    amount: u128,
) -> bool {
    let d = drop_id as int;
    let old_p = pre.drops@[d].payouts@;
    let i = commit_index(old_p, c, amount);
    &&& commit_would_apply(pre, drop_id, c, amount)
    &&& post.near_auth_contract == pre.near_auth_contract
    &&& post.drops@.len() == pre.drops@.len()
    &&& forall|k: int| 0 <= k < pre.drops@.len() && k != d ==> post.drops@[k] == pre.drops@[k]
    &&& post.drops@[d].owner_account_id == pre.drops@[d].owner_account_id
    &&& post.drops@[d].title == pre.drops@[d].title
    &&& post.drops@[d].description == pre.drops@[d].description
    &&& post.drops@[d].payouts@ == old_p.update(i, mark_claimed(old_p[i]))
}

impl NearDrop {
    /// The amount currently claimable from drop `drop_id` by whoever owns
    /// `contact`: the matching payout's amount when exactly one unclaimed
    /// payout matches, and zero otherwise (absent drop, no match, or an
    /// ambiguous duplicate).
    pub fn get_claim_amount(&self, drop_id: u64, contact: &Contact) -> (r: u128)
        ensures
            r == claim_amount_of(*self, drop_id, *contact),
    {
        if drop_id >= self.drops.len() as u64 {
            return 0;
        }
        let d = drop_id as usize;
        let ghost s = self.drops@[drop_id as int].payouts@;
        let n = self.drops[d].payouts.len();
        let mut count: usize = 0;
        let mut amount: u128 = 0;
        let mut i: usize = 0;
        while i < n
            invariant
                i <= n,
                n == s.len(),
                s == self.drops@[drop_id as int].payouts@,
                (drop_id as int) < self.drops@.len(),
                d == drop_id as int,
                count <= i,
                count as nat == matching_count(s.take(i as int), *contact),
                amount == matching_amount(s.take(i as int), *contact),
            decreases n - i,
        {
            proof {
                assert(s.take(i as int + 1).drop_last() =~= s.take(i as int));
                assert(s.take(i as int + 1).last() == s[i as int]);
            }
            let p = &self.drops[d].payouts[i];
            if p.contact.same_as(contact) && !p.claimed {
                count = count + 1;
                amount = p.amount;
            }
            i = i + 1;
        }
        proof {
            assert(s.take(n as int) =~= s);
        }
        if count == 1 {
            amount
        } else {
            0
        }
    }

    /// The first protocol step. When something is claimable, the claim
    /// suspends: the returned context must be sent to the authentication
    /// authority as a verification request, and its answer handed to
    /// `on_is_owner_on_claim`. When nothing is claimable the claim ends at
    /// once with `None` (the caller reports failure), and no request is
    /// made.
    pub fn claim(&self, drop_id: u64, contact: Contact, account_id: String) -> (r: Option<
        ClaimContext,
    >)
        ensures
            claim_amount_of(*self, drop_id, contact) > 0 ==> r == Some(
                ClaimContext {
                    drop_id,
                    recipient_account_id: account_id,
                    recipient_contact: contact,
                    balance_to_claim: claim_amount_of(*self, drop_id, contact),
                },
            ),
            claim_amount_of(*self, drop_id, contact) == 0 ==> r == None::<ClaimContext>,
    {
        let balance_to_claim = self.get_claim_amount(drop_id, &contact);
        if balance_to_claim > 0 {
            Some(
                ClaimContext {
                    drop_id,
                    recipient_account_id: account_id,
                    recipient_contact: contact,
                    balance_to_claim,
                },
            )
        } else {
            None
        }
    }

    /// The second protocol step, resumed with the authentication
    /// authority's verdict. On approval the claim suspends again: the
    /// returned context must be sent as a transfer of `balance_to_claim`
    /// to `recipient_account_id`, and its outcome handed to
    /// `on_claim_complete`. On denial the claim ends with `None`. Either
    /// way the store is untouched and no payout changes.
    pub fn on_is_owner_on_claim(
        &mut self,
        is_owner: bool,
        drop_id: u64,
        recipient_account_id: String,
        recipient_contact: Contact,
        balance_to_claim: u128,
    ) -> (r: Option<ClaimContext>)
        ensures
            *final(self) == *old(self),
            is_owner ==> r == Some(
                ClaimContext { drop_id, recipient_account_id, recipient_contact, balance_to_claim },
            ),
            !is_owner ==> r == None::<ClaimContext>,
    {
        if is_owner {
            Some(
                ClaimContext {
                    drop_id,
                    recipient_account_id,
                    recipient_contact,
                    balance_to_claim,
                },
            )
        } else {
            None
        }
    }

    /// The last protocol step, resumed with the transfer's outcome. On a
    /// failed transfer nothing changes and the claim reports failure — the
    /// payout stays unclaimed, so the whole claim may be retried. On a
    /// successful transfer the drop is re-read and the first unclaimed
    /// payout matching `(contact, balance_to_claim)` is marked claimed;
    /// when none matches any more (a concurrent claim won, or the drop is
    /// gone) the claim reports failure although the value has already been
    /// transferred — the acknowledged commit-miss gap of this protocol.
    pub fn on_claim_complete(
        &mut self,
        transfer_succeeded: bool,
        drop_id: u64,
        account_id: String,
        contact: Contact,
        balance_to_claim: u128,
    ) -> (r: bool)
        ensures
            r == (transfer_succeeded && commit_would_apply(
                *old(self),
                drop_id,
                contact,
                balance_to_claim,
            )),
            !r ==> *final(self) == *old(self),
            r ==> commit_transition(*old(self), *final(self), drop_id, contact, balance_to_claim),
            forall|k: int, j: int|
                0 <= k < old(self).drops@.len() && 0 <= j < old(self).drops@[k].payouts@.len()
                    && #[trigger] old(self).drops@[k].payouts@[j].claimed
                    ==> final(self).drops@[k].payouts@[j].claimed,
    {
        let _ = account_id;
        if !transfer_succeeded {
            return false;
        }
        if drop_id >= self.drops.len() as u64 {
            return false;
        }
        let d = drop_id as usize;
        let ghost s = self.drops@[drop_id as int].payouts@;
        let n = self.drops[d].payouts.len();
        let mut i: usize = 0;
        while i < n
            invariant
                transfer_succeeded,
                i <= n,
                n == s.len(),
                s == self.drops@[drop_id as int].payouts@,
                (drop_id as int) < self.drops@.len(),
                d == drop_id as int,
                *self == *old(self),
                forall|j: int| 0 <= j < i ==> !is_commit_match(#[trigger] s[j], contact, balance_to_claim),
            decreases n - i,
        {
            let hit: bool;
            {
                let p = &self.drops[d].payouts[i];
                hit = p.contact.same_as(&contact) && p.amount == balance_to_claim && !p.claimed;
            }
            if hit {
                proof {
                    lemma_commit_index_is_first(s, contact, balance_to_claim, i as int);
                }
                self.drops[d].payouts[i].claimed = true;
                proof {
                    assert(self.drops@[d as int].payouts@ =~= s.update(
                        i as int,
                        mark_claimed(s[i as int]),
                    ));
                }
                return true;
            }
            i = i + 1;
        }
        proof {
            lemma_commit_index_none(s, contact, balance_to_claim);
        }
        false
    }
}

} // verus!
