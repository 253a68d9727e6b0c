//! The data model: contacts, payouts, drop records, and the spec-level
//! functions that say what a claim against a drop is worth.

use vstd::prelude::*;

verus! {

/// The kind of off-chain identity a payout is addressed to.
#[derive(Clone, Copy, PartialEq, Eq, Structural, Debug)]
pub enum ContactTypes {
    Email,
    Telegram,
    Twitter,
    Github,
    NearGovForum,
}

/// An off-chain identity: a kind together with its textual handle.
pub struct Contact {
    pub contact_type: ContactTypes,
    pub value: String,
}

/// Structural equality of contacts: same kind, same handle text.
pub open spec fn contact_eq(a: Contact, b: Contact) -> bool {
    a.contact_type == b.contact_type && a.value@ == b.value@
}

impl Contact {
    /// Executable contact comparison, deciding `contact_eq`.
    pub fn same_as(&self, other: &Contact) -> (r: bool)
        ensures
            r == contact_eq(*self, *other),
    {
        self.contact_type == other.contact_type && self.value == other.value
    }
}

impl Clone for Contact {
    fn clone(&self) -> (res: Self)
        ensures
            res == *self,
    {
        Contact { contact_type: self.contact_type, value: self.value.clone() }
    }
}

/// One obligation within a drop: an amount owed to a contact, together
/// with whether it has already been released.
pub struct Payout {
    pub amount: u128,
    pub contact: Contact,
    pub claimed: bool,
}

impl Clone for Payout {
    fn clone(&self) -> (res: Self)
        ensures
            res == *self,
    {
        Payout { amount: self.amount, contact: self.contact.clone(), claimed: self.claimed }
    }
}

/// A payout as submitted at drop creation, before any claim state exists.
pub struct PayoutInput {
    pub amount: u128,
    pub contact: Contact,
}

impl Clone for PayoutInput {
    fn clone(&self) -> (res: Self)
        ensures
            res == *self,
    {
        PayoutInput { amount: self.amount, contact: self.contact.clone() }
    }
}

/// A funded batch of payouts created by one owner. Membership of the
/// payout list is fixed at creation; only the `claimed` flags ever change.
pub struct Drop {
    pub owner_account_id: String,
    pub payouts: Vec<Payout>,
    pub title: String,
    pub description: String,
}

/// Value equality of drop records, comparing the payout list by contents.
pub open spec fn drop_equiv(a: Drop, b: Drop) -> bool {
    &&& a.owner_account_id == b.owner_account_id
    &&& a.payouts@ == b.payouts@
    &&& a.title == b.title
    &&& a.description == b.description
}

impl Clone for Drop {
    fn clone(&self) -> (res: Self)
        ensures
            drop_equiv(res, *self),
    {
        let payouts = self.payouts.clone();
        proof {
            assert forall|i: int| 0 <= i < self.payouts@.len() implies payouts@[i]
                == self.payouts@[i] by {
                assert(cloned::<Payout>(self.payouts@[i], payouts@[i]));
            }
            assert(payouts@ =~= self.payouts@);
        }
        Drop {
            owner_account_id: self.owner_account_id.clone(),
            payouts,
            title: self.title.clone(),
            description: self.description.clone(),
        }
    }
}

/// A payout that is still open for the given contact.
pub open spec fn is_unclaimed_match(p: Payout, c: Contact) -> bool {
    contact_eq(p.contact, c) && !p.claimed
}

/// How many unclaimed payouts of `s` are addressed to `c`.
pub open spec fn matching_count(s: Seq<Payout>, c: Contact) -> nat
    decreases s.len(),
{
    if s.len() == 0 {
        0
    } else {
        matching_count(s.drop_last(), c) + (if is_unclaimed_match(s.last(), c) {
            1nat
        } else {
            0nat
        })
    }
}

/// The amount of the last unclaimed payout of `s` addressed to `c`,
/// or zero when none matches.
pub open spec fn matching_amount(s: Seq<Payout>, c: Contact) -> u128
    decreases s.len(),
{
    if s.len() == 0 {
        0
    } else if is_unclaimed_match(s.last(), c) {
        s.last().amount
    } else {
        matching_amount(s.drop_last(), c)
    }
}

/// What a claim against `s` for contact `c` is worth: the amount of the
/// single matching unclaimed payout, or zero when none or several match.
pub open spec fn claimable_of(s: Seq<Payout>, c: Contact) -> u128 {
    if matching_count(s, c) == 1 {
        matching_amount(s, c)
    } else {
        0
    }
}

/// Sum of the amounts of a batch of payout inputs, as an unbounded integer.
pub open spec fn sum_inputs(s: Seq<PayoutInput>) -> int
    decreases s.len(),
{
    if s.len() == 0 {
        0
    } else {
        sum_inputs(s.drop_last()) + s.last().amount
    }
}

/// A payout the commit step may mark: unclaimed, addressed to `c`,
/// of exactly the transferred `amount`.
pub open spec fn is_commit_match(p: Payout, c: Contact, amount: u128) -> bool {
    contact_eq(p.contact, c) && p.amount == amount && !p.claimed
}

/// Index of the first payout of `s` the commit step may mark,
/// or -1 when none exists.
pub open spec fn commit_index(s: Seq<Payout>, c: Contact, amount: u128) -> int
    decreases s.len(),
{
    if s.len() == 0 {
        -1
    } else if is_commit_match(s[0], c, amount) {
        0
    } else {
        let rest = commit_index(s.drop_first(), c, amount);
        if rest < 0 {
            -1
        } else {
            rest + 1
        }
    }
}

/// The same payout with its claimed flag set.
pub open spec fn mark_claimed(p: Payout) -> Payout {
    Payout { amount: p.amount, contact: p.contact, claimed: true }
}

/// `commit_index` points at the first commit candidate: the payout there
/// is one, and no earlier payout is; a negative index means none exists.
pub proof fn lemma_commit_index_props(s: Seq<Payout>, c: Contact, amount: u128)
    ensures
        commit_index(s, c, amount) >= 0 ==> {
            let i = commit_index(s, c, amount);
            &&& i < s.len()
            &&& is_commit_match(s[i], c, amount)
            &&& forall|j: int| 0 <= j < i ==> !is_commit_match(#[trigger] s[j], c, amount)
        },
        commit_index(s, c, amount) < 0 ==> forall|j: int|
            0 <= j < s.len() ==> !is_commit_match(#[trigger] s[j], c, amount),
    decreases s.len(),
{
    if s.len() == 0 {
    } else if is_commit_match(s[0], c, amount) {
    } else {
        let rest = commit_index(s.drop_first(), c, amount);
        lemma_commit_index_props(s.drop_first(), c, amount);
        if rest >= 0 {
            assert(s.drop_first()[rest] == s[rest + 1]);
            assert forall|j: int| 0 <= j < rest + 1 implies !is_commit_match(
                #[trigger] s[j],
                c,
                amount,
            ) by {
                if j > 0 {
                    assert(s.drop_first()[j - 1] == s[j]);
                }
            }
        } else {
            assert forall|j: int| 0 <= j < s.len() implies !is_commit_match(
                #[trigger] s[j],
                c,
                amount,
            ) by {
                if j > 0 {
                    assert(s.drop_first()[j - 1] == s[j]);
                }
            }
        }
    }
}

/// The first commit candidate, when one exists at `i` with none before it,
/// is exactly where `commit_index` points.
pub proof fn lemma_commit_index_is_first(s: Seq<Payout>, c: Contact, amount: u128, i: int)
    requires
        0 <= i < s.len(),
        is_commit_match(s[i], c, amount),
        forall|j: int| 0 <= j < i ==> !is_commit_match(#[trigger] s[j], c, amount),
    ensures
        commit_index(s, c, amount) == i,
    decreases s.len(),
{
    if i == 0 {
    } else {
        assert(!is_commit_match(s[0], c, amount));
        assert(s.drop_first()[i - 1] == s[i]);
        assert forall|j: int| 0 <= j < i - 1 implies !is_commit_match(
            #[trigger] s.drop_first()[j],
            c,
            amount,
        ) by {
            assert(s.drop_first()[j] == s[j + 1]);
        }
        lemma_commit_index_is_first(s.drop_first(), c, amount, i - 1);
    }
}

/// When no payout is a commit candidate, `commit_index` is negative.
pub proof fn lemma_commit_index_none(s: Seq<Payout>, c: Contact, amount: u128)
    requires
        forall|j: int| 0 <= j < s.len() ==> !is_commit_match(#[trigger] s[j], c, amount),
    ensures
        commit_index(s, c, amount) == -1,
    decreases s.len(),
{
    if s.len() == 0 {
    } else {
        assert(!is_commit_match(s[0], c, amount));
        assert forall|j: int| 0 <= j < s.drop_first().len() implies !is_commit_match(
            #[trigger] s.drop_first()[j],
            c,
            amount,
        ) by {
            assert(s.drop_first()[j] == s[j + 1]);
        }
        lemma_commit_index_none(s.drop_first(), c, amount);
    }
}

} // verus!
