//! The drop store and drop creation: validation of a new drop, the
//! sequential assignment of its identifier, and the refund owed to the
//! creator when the deposit exceeds the payouts.

use vstd::prelude::*;
use vstd::string::StrSliceExecFns;

use crate::model::{sum_inputs, Drop, Payout, PayoutInput};

verus! {

/// Most payouts a single drop may carry (exclusive bound).
pub const MAX_USERS_SIZE: usize = 32;

/// Least deposit a drop creation must attach.
pub const MIN_DEPOSIT_AMOUNT: u128 = 1_000_000_000_000_000_000_000_000;

/// Longest accepted description, in characters (exclusive bound).
pub const MAX_DESCRIPTION_LENGTH: usize = 280;

/// Longest accepted title, in characters (exclusive bound).
pub const MAX_TITLE_LENGTH: usize = 128;

/// The whole persistent state: every drop ever created, keyed by its
/// sequential identifier (the index), and the name of the outside
/// authentication authority.
pub struct NearDrop {
    pub drops: Vec<Drop>,
    pub near_auth_contract: String,
}

/// Why a drop creation was rejected. No state changes on rejection.
#[derive(Clone, Copy, PartialEq, Eq, Structural, Debug)]
pub enum AddDropError {
    NotEnoughDeposit,
    TooManyUsers,
    MissingRewards,
    DescriptionTooLong,
    TitleTooLong,
    NotEnoughForRewards,
}

/// What a successful creation hands back: the new drop's identifier and
/// the surplus deposit owed back to the creator, to be refunded exactly
/// once, now, by the caller.
#[derive(Debug)]
pub struct DropCreation {
    pub drop_id: u64,
    pub refund: u128,
}

/// The creation-time checks, in the order they are made; `None` means the
/// request is accepted.
pub open spec fn add_drop_check(
    deposit: u128,
    payouts: Seq<PayoutInput>,
    title: Seq<char>,
    description: Seq<char>,
) -> Option<AddDropError> {
    if deposit < MIN_DEPOSIT_AMOUNT {
        Some(AddDropError::NotEnoughDeposit)
    } else if payouts.len() >= MAX_USERS_SIZE {
        Some(AddDropError::TooManyUsers)
    } else if payouts.len() == 0 {
        Some(AddDropError::MissingRewards)
    } else if description.len() >= MAX_DESCRIPTION_LENGTH {
        Some(AddDropError::DescriptionTooLong)
    } else if title.len() >= MAX_TITLE_LENGTH {
        Some(AddDropError::TitleTooLong)
    } else if sum_inputs(payouts) > deposit {
        Some(AddDropError::NotEnoughForRewards)
    } else {
        None
    }
}

/// The drop record a successful creation appends: the given fields, with
/// every payout still unclaimed.
pub open spec fn created_drop(
    d: Drop,
    owner_account_id: String,
    payouts: Seq<PayoutInput>,
    title: String,
    description: String,
) -> bool {
    &&& d.owner_account_id == owner_account_id
    &&& d.title == title
    &&& d.description == description
    &&& d.payouts@ == payouts.map_values(
        |pi: PayoutInput| Payout { amount: pi.amount, contact: pi.contact, claimed: false },
    )
}

impl NearDrop {
    /// A fresh store with no drops, remembering the authentication
    /// authority to consult on claims.
    pub fn new(near_auth_contract: String) -> (s: Self)
        ensures
            s.drops@.len() == 0,
            s.near_auth_contract == near_auth_contract,
    {
        NearDrop { drops: Vec::new(), near_auth_contract }
    }

    /// Validates and records a new drop. On success the drop is appended
    /// under the next sequential identifier, every payout unclaimed, and
    /// the surplus deposit is returned as the refund; on rejection the
    /// state is untouched and the error names the first failed check.
    pub fn add_drop(
        &mut self,
        owner_account_id: String,
        deposit: u128,
        payouts: Vec<PayoutInput>,
        title: String,
        description: String,
    ) -> (r: Result<DropCreation, AddDropError>)
        ensures
            match r {
                Result::Err(e) => {
                    &&& add_drop_check(deposit, payouts@, title@, description@) == Some(e)
                    &&& *final(self) == *old(self)
                },
                Result::Ok(c) => {
                    &&& add_drop_check(deposit, payouts@, title@, description@)
                        == None::<AddDropError>
                    &&& c.drop_id == old(self).drops@.len()
                    &&& c.refund == deposit - sum_inputs(payouts@)
                    &&& sum_inputs(payouts@) <= deposit
                    &&& final(self).near_auth_contract == old(self).near_auth_contract
                    &&& final(self).drops@.len() == old(self).drops@.len() + 1
                    &&& forall|k: int|
                        0 <= k < old(self).drops@.len() ==> final(self).drops@[k] == old(
                            self,
                        ).drops@[k]
                    &&& created_drop(
                        final(self).drops@.last(),
                        owner_account_id,
                        payouts@,
                        title,
                        description,
                    )
                },
            },
    {
        if deposit < MIN_DEPOSIT_AMOUNT {
            return Err(AddDropError::NotEnoughDeposit);
        }
        if payouts.len() >= MAX_USERS_SIZE {
            return Err(AddDropError::TooManyUsers);
        }
        if payouts.len() == 0 {
            return Err(AddDropError::MissingRewards);
        }
        if description.as_str().unicode_len() >= MAX_DESCRIPTION_LENGTH {
            return Err(AddDropError::DescriptionTooLong);
        }
        if title.as_str().unicode_len() >= MAX_TITLE_LENGTH {
            return Err(AddDropError::TitleTooLong);
        }
        let mut total: u128 = 0;
        let mut overflow: bool = false;
        let mut i: usize = 0;
        while i < payouts.len()
            invariant
                i <= payouts@.len(),
                !overflow ==> total == sum_inputs(payouts@.take(i as int)),
                overflow ==> sum_inputs(payouts@.take(i as int)) > u128::MAX,
            decreases payouts@.len() - i,
        {
            let a = payouts[i].amount;
            proof {
                assert(payouts@.take(i as int + 1).drop_last() =~= payouts@.take(i as int));
                assert(payouts@.take(i as int + 1).last() == payouts@[i as int]);
            }
            if !overflow {
                if total <= u128::MAX - a {
                    total = total + a;
                } else {
                    overflow = true;
                }
            }
            i = i + 1;
        }
        proof {
            assert(payouts@.take(payouts@.len() as int) =~= payouts@);
        }
        if overflow || total > deposit {
            return Err(AddDropError::NotEnoughForRewards);
        }
        let refund = deposit - total;
        let mut prepared: Vec<Payout> = Vec::new();
        let mut j: usize = 0;
        while j < payouts.len()
            invariant
                j <= payouts@.len(),
                prepared@.len() == j,
                forall|k: int|
                    0 <= k < j ==> prepared@[k] == (Payout {
                        amount: payouts@[k].amount,
                        contact: payouts@[k].contact,
                        claimed: false,
                    }),
            decreases payouts@.len() - j,
        {
            let amount = payouts[j].amount;
            let contact = payouts[j].contact.clone();
            prepared.push(Payout { amount, contact, claimed: false });
            j = j + 1;
        }
        proof {
            assert(prepared@ =~= payouts@.map_values(
                |pi: PayoutInput| Payout { amount: pi.amount, contact: pi.contact, claimed: false },
            ));
        }
        let drop_id = self.drops.len() as u64;
        self.drops.push(Drop { owner_account_id, payouts: prepared, title, description });
        Ok(DropCreation { drop_id, refund })
    }
}

impl Default for NearDrop {
    /// An empty store with no authentication authority configured yet.
    fn default() -> (s: Self)
        ensures
            s.drops@.len() == 0,
            s.near_auth_contract@ == Seq::<char>::empty(),
    {
        NearDrop { drops: Vec::new(), near_auth_contract: String::new() }
    }
}

} // verus!
