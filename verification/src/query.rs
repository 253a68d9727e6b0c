//! Read-only queries over the drop store: single lookup and paginated
//! listing, plain or filtered by owner. Out-of-range requests degrade to
//! empty results; no query ever fails or touches the store.

use vstd::prelude::*;

use crate::model::{drop_equiv, Drop};
use crate::store::NearDrop;

verus! {

/// The drops of `s` with identifiers in `[from, end)` owned by `owner`,
/// paired with their identifiers, in identifier order.
pub open spec fn owned_in_range(s: Seq<Drop>, owner: Seq<char>, from: int, end: int) -> Seq<
    (u64, Drop),
>
    decreases end - from,
{
    if from >= end {
        Seq::empty()
    } else {
        let init = owned_in_range(s, owner, from, end - 1);
        if s[end - 1].owner_account_id@ == owner {
            init.push((((end - 1) as u64), s[end - 1]))
        } else {
            init
        }
    }
}

/// Where a page starting at `from` begins, clamped to the store size.
pub open spec fn page_start(from: u64, len: int) -> int {
    if from as int <= len {
        from as int
    } else {
        len
    }
}

/// Where a page of `limit` entries starting at `from` ends, clamped to
/// the store size.
pub open spec fn page_end(from: u64, limit: u64, len: int) -> int {
    if from as int + limit as int <= len {
        from as int + limit as int
    } else {
        len
    }
}

impl NearDrop {
    /// The drop stored under `id`, or nothing when no such drop exists.
    pub fn get_drop(&self, id: u64) -> (r: Option<Drop>)
        ensures
            match r {
                Some(d) => (id as int) < self.drops@.len() && drop_equiv(
                    d,
                    self.drops@[id as int],
                ),
                None => (id as int) >= self.drops@.len(),
            },
    {
        if id < self.drops.len() as u64 {
            Some(self.drops[id as usize].clone())
        } else {
            None
        }
    }

    /// The page of drops with identifiers in `[from_index, from_index +
    /// limit)`, clamped to the store size: each entry pairs an identifier
    /// below the store size with its drop, in identifier order, and a page
    /// starting at or past the size is empty.
    pub fn get_drops(&self, from_index: u64, limit: u64) -> (r: Vec<(u64, Drop)>)
        ensures
            ({
                let start = page_start(from_index, self.drops@.len() as int);
                let end = page_end(from_index, limit, self.drops@.len() as int);
                &&& r@.len() == end - start
                &&& forall|k: int|
                    0 <= k < r@.len() ==> (#[trigger] r@[k]).0 == start + k && drop_equiv(
                        r@[k].1,
                        self.drops@[start + k],
                    )
            }),
            from_index as int >= self.drops@.len() ==> r@.len() == 0,
            forall|k: int| 0 <= k < r@.len() ==> (#[trigger] r@[k]).0 < self.drops@.len(),
    {
        let len = self.drops.len() as u64;
        let start = if from_index > len {
            len
        } else {
            from_index
        };
        let end = if limit > len - start {
            len
        } else {
            start + limit
        };
        let mut result: Vec<(u64, Drop)> = Vec::new();
        let mut idx: u64 = start;
        while idx < end
            invariant
                start <= idx <= end,
                end as int <= self.drops@.len(),
                self.drops@.len() <= usize::MAX,
                start == page_start(from_index, self.drops@.len() as int),
                end == page_end(from_index, limit, self.drops@.len() as int),
                result@.len() == idx - start,
                forall|k: int|
                    0 <= k < result@.len() ==> (#[trigger] result@[k]).0 == start + k
                        && drop_equiv(result@[k].1, self.drops@[start + k]),
            decreases end - idx,
        {
            let d = self.drops[idx as usize].clone();
            result.push((idx, d));
            idx = idx + 1;
        }
        result
    }

    /// The same page as `get_drops`, keeping only the drops owned by
    /// `account_id`: exactly the owned entries of the clamped range, in
    /// identifier order, every identifier below the store size.
    pub fn get_drops_by_account_id(&self, account_id: String, from_index: u64, limit: u64) -> (r:
        Vec<(u64, Drop)>)
        ensures
            ({
                let start = page_start(from_index, self.drops@.len() as int);
                let end = page_end(from_index, limit, self.drops@.len() as int);
                let w = owned_in_range(self.drops@, account_id@, start, end);
                &&& r@.len() == w.len()
                &&& forall|k: int|
                    0 <= k < r@.len() ==> (#[trigger] r@[k]).0 == w[k].0 && drop_equiv(
                        r@[k].1,
                        w[k].1,
                    )
            }),
            from_index as int >= self.drops@.len() ==> r@.len() == 0,
            forall|k: int| 0 <= k < r@.len() ==> (#[trigger] r@[k]).0 < self.drops@.len(),
    {
        let len = self.drops.len() as u64;
        let start = if from_index > len {
            len
        } else {
            from_index
        };
        let end = if limit > len - start {
            len
        } else {
            start + limit
        };
        let mut result: Vec<(u64, Drop)> = Vec::new();
        let mut idx: u64 = start;
        while idx < end
            invariant
                start <= idx <= end,
                end as int <= self.drops@.len(),
                self.drops@.len() <= usize::MAX,
                start == page_start(from_index, self.drops@.len() as int),
                end == page_end(from_index, limit, self.drops@.len() as int),
                ({
                    let w = owned_in_range(self.drops@, account_id@, start as int, idx as int);
                    &&& result@.len() == w.len()
                    &&& forall|k: int|
                        0 <= k < result@.len() ==> (#[trigger] result@[k]).0 == w[k].0
                            && drop_equiv(result@[k].1, w[k].1)
                }),
                forall|k: int|
                    0 <= k < result@.len() ==> (#[trigger] result@[k]).0 < self.drops@.len(),
            decreases end - idx,
        {
            let owned = self.drops[idx as usize].owner_account_id == account_id;
            if owned {
                let d = self.drops[idx as usize].clone();
                result.push((idx, d));
            }
            proof {
                assert(owned_in_range(self.drops@, account_id@, start as int, idx as int + 1)
                    == if self.drops@[idx as int].owner_account_id@ == account_id@ {
                    owned_in_range(self.drops@, account_id@, start as int, idx as int).push(
                        (idx, self.drops@[idx as int]),
                    )
                } else {
                    owned_in_range(self.drops@, account_id@, start as int, idx as int)
                });
            }
            idx = idx + 1;
        }
        result
    }
}

} // verus!
