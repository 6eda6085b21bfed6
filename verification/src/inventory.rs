//! The inventory of one account: how many units it owns of each asset.
//!
//! An asset is matched by its exact identifier. An inventory never stores a
//! quantity of zero: an asset that is not owned has no entry.

use vstd::prelude::*;
use crate::error::ContractError;
use crate::table::Table;

verus! {

/// The number of units of `asset` in the inventory `inv`: zero where it has no entry.
pub open spec fn quantity(inv: Map<Seq<char>, u64>, asset: Seq<char>) -> nat {
    if inv.contains_key(asset) {
        inv[asset] as nat
    } else {
        0
    }
}

/// What adding `amount` units of `asset` to `inv` gives.
pub open spec fn increased(inv: Map<Seq<char>, u64>, asset: Seq<char>, amount: u64) -> Result<
    Map<Seq<char>, u64>,
    ContractError,
> {
    if amount == 0 {
        Err(ContractError::InvalidAmount)
    } else if quantity(inv, asset) + amount > u64::MAX {
        Err(ContractError::ArithmeticOverflow)
    } else {
        Ok(inv.insert(asset, (quantity(inv, asset) + amount) as u64))
    }
}

/// What taking `amount` units of `asset` from `inv` gives. Taking all units
/// removes the entry.
pub open spec fn decreased(inv: Map<Seq<char>, u64>, asset: Seq<char>, amount: u64) -> Result<
    Map<Seq<char>, u64>,
    ContractError,
> {
    if amount == 0 {
        Err(ContractError::InvalidAmount)
    } else if !inv.contains_key(asset) {
        Err(ContractError::AssetNotFound)
    } else if inv[asset] < amount {
        Err(ContractError::InsufficientAssetCount)
    } else if inv[asset] == amount {
        Ok(inv.remove(asset))
    } else {
        Ok(inv.insert(asset, (inv[asset] - amount) as u64))
    }
}

/// Every stored quantity is positive.
pub open spec fn all_positive(inv: Map<Seq<char>, u64>) -> bool {
    forall|asset: Seq<char>| inv.contains_key(asset) ==> #[trigger] inv[asset] > 0
}

/// Taking all the units that are owned of an asset removes its entry: a
/// lookup then gives zero, and no entry with the quantity zero is left.
pub proof fn lemma_decrease_to_zero(inv: Map<Seq<char>, u64>, asset: Seq<char>, amount: u64)
    requires
        amount > 0,
        inv.contains_key(asset),
        inv[asset] == amount,
    ensures
        decreased(inv, asset, amount) is Ok,
        !decreased(inv, asset, amount)->Ok_0.contains_key(asset),
        quantity(decreased(inv, asset, amount)->Ok_0, asset) == 0,
{
}

/// Adding to an inventory and taking from it keep every stored quantity
/// positive, and change the quantity of no other asset.
pub proof fn lemma_changes_keep_positive(inv: Map<Seq<char>, u64>, asset: Seq<char>, amount: u64)
    requires
        all_positive(inv),
    ensures
        increased(inv, asset, amount) is Ok ==> all_positive(increased(inv, asset, amount)->Ok_0)
            && quantity(increased(inv, asset, amount)->Ok_0, asset) == quantity(inv, asset)
            + amount,
        decreased(inv, asset, amount) is Ok ==> all_positive(decreased(inv, asset, amount)->Ok_0)
            && quantity(decreased(inv, asset, amount)->Ok_0, asset) == quantity(inv, asset)
            - amount,
        forall|other: Seq<char>|
            other != asset ==> (increased(inv, asset, amount) is Ok ==> quantity(
                increased(inv, asset, amount)->Ok_0,
                other,
            ) == quantity(inv, other)) && (decreased(inv, asset, amount) is Ok ==> quantity(
                decreased(inv, asset, amount)->Ok_0,
                other,
            ) == quantity(inv, other)),
{
}

/// Stored holdings as the contracts speak of them.
pub open spec fn holdings(stored: Seq<(String, u64)>) -> Seq<(Seq<char>, u64)> {
    stored.map_values(|e: (String, u64)| (e.0@, e.1))
}

/// The inventory that holds `entries`, added one after the other from the
/// first on. It exists when every quantity is positive and no sum leaves
/// the range of 64 bits.
pub open spec fn stocked(entries: Seq<(Seq<char>, u64)>) -> Result<
    Map<Seq<char>, u64>,
    ContractError,
>
    decreases entries.len(),
{
    if entries.len() == 0 {
        Ok(Map::empty())
    } else {
        match stocked(entries.drop_last()) {
            Ok(inv) => increased(inv, entries.last().0, entries.last().1),
            Err(e) => Err(e),
        }
    }
}

/// Where a prefix of `entries` has no inventory, `entries` has none, for
/// the same reason.
pub proof fn lemma_stocked_fails_on(entries: Seq<(Seq<char>, u64)>, n: int)
    requires
        0 <= n <= entries.len(),
        stocked(entries.take(n)) is Err,
    ensures
        stocked(entries) == stocked(entries.take(n)),
    decreases entries.len() - n,
{
    if n == entries.len() {
        assert(entries.take(n) =~= entries);
    } else {
        assert(entries.take(n + 1).drop_last() =~= entries.take(n));
        lemma_stocked_fails_on(entries, n + 1);
    }
}

/// The quantity owned of each asset, viewed as a `Map` from asset identifier
/// to quantity.
pub struct Inventory {
    items: Table<String, u64>,
}

impl View for Inventory {
    type V = Map<Seq<char>, u64>;

    closed spec fn view(&self) -> Map<Seq<char>, u64> {
        self.items@
    }
}

impl Inventory {
    /// The table is well formed and stores no quantity of zero.
    pub closed spec fn wf(&self) -> bool {
        self.items.wf() && all_positive(self.items@)
    }

    /// A well-formed inventory stores only positive quantities.
    pub proof fn lemma_positive(&self)
        requires
            self.wf(),
        ensures
            all_positive(self@),
    {
    }

    /// The empty inventory.
    pub fn new() -> (inv: Self)
        ensures
            inv.wf(),
            inv@ == Map::<Seq<char>, u64>::empty(),
    {
        Inventory { items: Table::new() }
    }

    /// A second inventory with the same contents.
    pub fn copy(&self) -> (inv: Self)
        requires
            self.wf(),
        ensures
            inv.wf(),
            inv@ == self@,
    {
        Inventory { items: self.items.copy() }
    }

    /// The number of units owned of `asset`: zero where none is owned.
    pub fn lookup(&self, asset: &String) -> (q: u64)
        requires
            self.wf(),
        ensures
            q == quantity(self@, asset@),
    {
        match self.items.get(asset) {
            Some(q) => *q,
            None => 0,
        }
    }

    /// Adds `amount` units of `asset` and returns the new quantity. Fails,
    /// changing nothing, when `amount` is zero or the new quantity would not
    /// fit in 64 bits.
    pub fn increase(&mut self, asset: &String, amount: u64) -> (r: Result<u64, ContractError>)
        requires
            old(self).wf(),
        ensures
            final(self).wf(),
            match increased(old(self)@, asset@, amount) {
                Ok(inv) => final(self)@ == inv && r == Ok::<u64, ContractError>(inv[asset@]),
                Err(e) => *final(self) == *old(self) && r == Err::<u64, ContractError>(e),
            },
    {
        if amount == 0 {
            return Err(ContractError::InvalidAmount);
        }
        let current = self.lookup(asset);
        match current.checked_add(amount) {
            Some(total) => {
                self.items.insert(asset.clone(), total);
                Ok(total)
            },
            None => Err(ContractError::ArithmeticOverflow),
        }
    }

    /// Takes `amount` units of `asset` and returns the quantity that is left;
    /// when none is left the entry is removed. Fails, changing nothing, when
    /// `amount` is zero, the asset is not owned, or fewer units are owned.
    pub fn decrease(&mut self, asset: &String, amount: u64) -> (r: Result<u64, ContractError>)
        requires
            old(self).wf(),
        ensures
            final(self).wf(),
            match decreased(old(self)@, asset@, amount) {
                Ok(inv) => final(self)@ == inv && r == Ok::<u64, ContractError>(
                    (quantity(old(self)@, asset@) - amount) as u64,
                ),
                Err(e) => *final(self) == *old(self) && r == Err::<u64, ContractError>(e),
            },
    {
        if amount == 0 {
            return Err(ContractError::InvalidAmount);
        }
        let current = match self.items.get(asset) {
            Some(q) => *q,
            None => {
                return Err(ContractError::AssetNotFound);
            },
        };
        if current < amount {
            return Err(ContractError::InsufficientAssetCount);
        }
        let left = current - amount;
        if left == 0 {
            self.items.remove(asset);
        } else {
            self.items.insert(asset.clone(), left);
        }
        Ok(left)
    }

    /// The inventory that holds `entries`, added one after the other.
    pub fn from_holdings(entries: &Vec<(String, u64)>) -> (r: Result<Inventory, ContractError>)
        ensures
            match stocked(holdings(entries@)) {
                Ok(inv) => r is Ok && r->Ok_0.wf() && r->Ok_0@ == inv,
                Err(e) => r is Err && r->Err_0 == e,
            },
    {
        let ghost all = holdings(entries@);
        let mut inv = Inventory::new();
        let mut i: usize = 0;
        assert(all.take(0) =~= Seq::<(Seq<char>, u64)>::empty());
        while i < entries.len()
            invariant
                i <= entries@.len(),
                all == holdings(entries@),
                inv.wf(),
                stocked(all.take(i as int)) == Ok::<Map<Seq<char>, u64>, ContractError>(inv@),
            decreases entries@.len() - i,
        {
            proof {
                assert(all.take(i + 1).drop_last() =~= all.take(i as int));
                assert(all.take(i + 1).last() == (entries@[i as int].0@, entries@[i as int].1));
            }
            match inv.increase(&entries[i].0, entries[i].1) {
                Ok(_) => {},
                Err(e) => {
                    proof {
                        lemma_stocked_fails_on(all, i + 1);
                    }
                    return Err(e);
                },
            }
            i += 1;
        }
        proof {
            assert(all.take(i as int) =~= all);
        }
        Ok(inv)
    }

    /// The holdings: every owned asset once, with its quantity.
    pub fn holdings(&self) -> (r: Vec<(String, u64)>)
        requires
            self.wf(),
        ensures
            forall|i: int, j: int| 0 <= i < j < r@.len() ==> (#[trigger] r@[i]).0@ != (#[trigger] r@[j]).0@,
            forall|i: int|
                0 <= i < r@.len() ==> self@.contains_key((#[trigger] r@[i]).0@) && self@[r@[i].0@]
                    == r@[i].1,
            forall|asset: Seq<char>|
                self@.contains_key(asset) ==> exists|i: int|
                    0 <= i < r@.len() && (#[trigger] r@[i]).0@ == asset,
    {
        let r = self.items.pairs();
        proof {
            assert forall|asset: Seq<char>| self@.contains_key(asset) implies exists|i: int|
                0 <= i < r@.len() && (#[trigger] r@[i]).0@ == asset by {
                let i = choose|i: int|
                    0 <= i < r@.len() && crate::table::Key::id(&(#[trigger] r@[i]).0) == asset;
                assert(r@[i].0@ == asset);
            }
        }
        r
    }
}

} // verus!
