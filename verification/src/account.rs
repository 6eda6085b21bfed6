//! Principals and the accounts registered for them.

use vstd::prelude::*;
use crate::error::ContractError;
use crate::inventory::{decreased, increased, quantity, Inventory};
use crate::table::Key;

verus! {

/// The number of tokens that an account holds when it is registered.
pub const INITIAL_BALANCE: u128 = 1_000_000;

/// The identifier of a principal: 32 bytes without further structure. Two
/// principals are the same exactly when all their bytes agree.
#[derive(Debug, Clone, Copy, PartialEq, Eq, Hash)]
pub struct AccountId {
    pub bytes: [u8; 32],
}

impl View for AccountId {
    type V = Seq<u8>;

    open spec fn view(&self) -> Seq<u8> {
        self.bytes@
    }
}

impl Key for AccountId {
    type Id = Seq<u8>;

    open spec fn id(&self) -> Seq<u8> {
        self.bytes@
    }

    fn same(&self, other: &Self) -> (r: bool) {
        let mut i: usize = 0;
        while i < 32
            invariant
                i <= 32,
                forall|j: int| 0 <= j < i ==> self.bytes@[j] == other.bytes@[j],
            decreases 32 - i,
        {
            if self.bytes[i] != other.bytes[i] {
                return false;
            }
            i += 1;
        }
        assert(self.bytes@ =~= other.bytes@);
        true
    }

    fn duplicate(&self) -> (r: Self) {
        AccountId { bytes: self.bytes }
    }
}

/// An account as the contracts speak of it.
pub struct PlayerView {
    /// The display name.
    pub name: Seq<char>,
    /// The token balance.
    pub balance: u128,
    /// The quantity owned of each asset; every quantity is positive.
    pub inventory: Map<Seq<char>, u64>,
}

/// The account of one principal: a display name, a token balance and an inventory.
pub struct Player {
    name: String,
    balance: u128,
    assets: Inventory,
}

impl View for Player {
    type V = PlayerView;

    closed spec fn view(&self) -> PlayerView {
        PlayerView { name: self.name@, balance: self.balance, inventory: self.assets@ }
    }
}

/// The account that registration creates for the display name `name`.
pub open spec fn fresh_player(name: Seq<char>) -> PlayerView {
    PlayerView { name, balance: INITIAL_BALANCE, inventory: Map::empty() }
}

/// The price of `count` units at `price` each.
pub open spec fn cost(price: u128, count: u64) -> int {
    price as int * count as int
}

/// The account after it bought `count` units of `asset` at `price` each.
pub open spec fn after_purchase(p: PlayerView, asset: Seq<char>, count: u64, price: u128) -> Result<
    PlayerView,
    ContractError,
> {
    if count == 0 {
        Err(ContractError::InvalidAmount)
    } else if cost(price, count) > u128::MAX {
        Err(ContractError::ArithmeticOverflow)
    } else if p.balance < cost(price, count) {
        Err(ContractError::InsufficientBalance)
    } else {
        match increased(p.inventory, asset, count) {
            Ok(inventory) => Ok(
                PlayerView { balance: (p.balance - cost(price, count)) as u128, inventory, ..p },
            ),
            Err(e) => Err(e),
        }
    }
}

/// The account after `count` units of `asset` were taken from it.
pub open spec fn after_remove(p: PlayerView, asset: Seq<char>, count: u64) -> Result<
    PlayerView,
    ContractError,
> {
    match decreased(p.inventory, asset, count) {
        Ok(inventory) => Ok(PlayerView { inventory, ..p }),
        Err(e) => Err(e),
    }
}

/// The account after `count` units of `asset` were given to it.
pub open spec fn after_receive(p: PlayerView, asset: Seq<char>, count: u64) -> Result<
    PlayerView,
    ContractError,
> {
    match increased(p.inventory, asset, count) {
        Ok(inventory) => Ok(PlayerView { inventory, ..p }),
        Err(e) => Err(e),
    }
}

/// The account after an administrative adjustment of `asset` by `count`
/// units, upwards where `increase` holds. An adjustment downwards of an
/// asset that is not owned is rejected as an insufficient count.
pub open spec fn after_modify(p: PlayerView, asset: Seq<char>, count: u64, increase: bool) -> Result<
    PlayerView,
    ContractError,
> {
    if increase {
        after_receive(p, asset, count)
    } else if count > 0 && !p.inventory.contains_key(asset) {
        Err(ContractError::InsufficientAssetCount)
    } else {
        after_remove(p, asset, count)
    }
}

/// What an exchange returns to the balance: the value given less the value
/// taken. The value given must cover the value taken.
pub open spec fn refund_of(price_give: u128, units_give: u64, price_take: u128, units_take: u64) -> Result<
    u128,
    ContractError,
> {
    if units_give == 0 || units_take == 0 {
        Err(ContractError::InvalidAmount)
    } else if cost(price_give, units_give) > u128::MAX || cost(price_take, units_take)
        > u128::MAX {
        Err(ContractError::ArithmeticOverflow)
    } else if cost(price_give, units_give) < cost(price_take, units_take) {
        Err(ContractError::InsufficientBalance)
    } else {
        Ok((cost(price_give, units_give) - cost(price_take, units_take)) as u128)
    }
}

/// The account after it gave `units_give` units of `give`, took `units_take`
/// units of `take` and was credited `refund` tokens.
pub open spec fn after_exchange(
    p: PlayerView,
    give: Seq<char>,
    units_give: u64,
    take: Seq<char>,
    units_take: u64,
    refund: u128,
) -> Result<PlayerView, ContractError> {
    match decreased(p.inventory, give, units_give) {
        Err(e) => Err(e),
        Ok(less) => match increased(less, take, units_take) {
            Err(e) => Err(e),
            Ok(inventory) => if p.balance + refund > u128::MAX {
                Err(ContractError::ArithmeticOverflow)
            } else {
                Ok(PlayerView { balance: (p.balance + refund) as u128, inventory, ..p })
            },
        },
    }
}

/// The tokens that `count` units cost at `price` each, where that fits in 128 bits.
pub fn total_price(price: u128, count: u64) -> (r: Result<u128, ContractError>)
    ensures
        r == (if cost(price, count) > u128::MAX {
            Err::<u128, ContractError>(ContractError::ArithmeticOverflow)
        } else {
            Ok::<u128, ContractError>(cost(price, count) as u128)
        }),
{
    match price.checked_mul(count as u128) {
        Some(total) => Ok(total),
        None => Err(ContractError::ArithmeticOverflow),
    }
}

/// The refund of an exchange of `units_give` units priced `price_give` for
/// `units_take` units priced `price_take`.
pub fn exchange_refund(price_give: u128, units_give: u64, price_take: u128, units_take: u64) -> (r:
    Result<u128, ContractError>)
    ensures
        r == refund_of(price_give, units_give, price_take, units_take),
{
    if units_give == 0 || units_take == 0 {
        return Err(ContractError::InvalidAmount);
    }
    let total_give = match total_price(price_give, units_give) {
        Ok(t) => t,
        Err(e) => {
            return Err(e);
        },
    };
    let total_take = match total_price(price_take, units_take) {
        Ok(t) => t,
        Err(e) => {
            return Err(e);
        },
    };
    if total_give < total_take {
        return Err(ContractError::InsufficientBalance);
    }
    Ok(total_give - total_take)
}

impl Player {
    /// The inventory is well formed.
    pub closed spec fn wf(&self) -> bool {
        self.assets.wf()
    }

    /// In a well-formed account every stored quantity is positive.
    pub proof fn lemma_positive(&self)
        requires
            self.wf(),
        ensures
            crate::inventory::all_positive(self@.inventory),
    {
        self.assets.lemma_positive();
    }

    /// A new account with the initial balance and an empty inventory.
    pub fn new(name: String) -> (p: Self)
        ensures
            p.wf(),
            p@ == fresh_player(name@),
    {
        Player { name, balance: INITIAL_BALANCE, assets: Inventory::new() }
    }

    /// The account with the display name `name`, the balance `balance` and
    /// the inventory `assets`.
    pub fn from_parts(name: String, balance: u128, assets: Inventory) -> (p: Self)
        requires
            assets.wf(),
        ensures
            p.wf(),
            p@ == (PlayerView { name: name@, balance, inventory: assets@ }),
    {
        Player { name, balance, assets }
    }

    /// The inventory.
    pub fn inventory(&self) -> (r: &Inventory)
        ensures
            r@ == self@.inventory,
            self.wf() ==> r.wf(),
    {
        &self.assets
    }

    /// A second account record with the same contents.
    pub fn copy(&self) -> (p: Self)
        requires
            self.wf(),
        ensures
            p.wf(),
            p@ == self@,
    {
        Player { name: self.name.clone(), balance: self.balance, assets: self.assets.copy() }
    }

    /// The display name.
    pub fn name(&self) -> (r: &String)
        ensures
            r@ == self@.name,
    {
        &self.name
    }

    /// The token balance.
    pub fn balance(&self) -> (r: u128)
        ensures
            r == self@.balance,
    {
        self.balance
    }

    /// The number of units owned of `asset`: zero where none is owned.
    pub fn quantity(&self, asset: &String) -> (q: u64)
        requires
            self.wf(),
        ensures
            q == crate::inventory::quantity(self@.inventory, asset@),
    {
        self.assets.lookup(asset)
    }

    /// Buys `count` units of `asset` at `price` each and returns the total
    /// paid. Fails, changing nothing, when `count` is zero, the total does
    /// not fit in 128 bits, the balance does not cover it, or the new
    /// quantity does not fit in 64 bits.
    pub fn purchase(&mut self, asset: &String, count: u64, price: u128) -> (r: Result<
        u128,
        ContractError,
    >)
        requires
            old(self).wf(),
        ensures
            final(self).wf(),
            match after_purchase(old(self)@, asset@, count, price) {
                Ok(p) => final(self)@ == p && r == Ok::<u128, ContractError>(
                    cost(price, count) as u128,
                ),
                Err(e) => *final(self) == *old(self) && r == Err::<u128, ContractError>(e),
            },
    {
        if count == 0 {
            return Err(ContractError::InvalidAmount);
        }
        let total = match total_price(price, count) {
            Ok(t) => t,
            Err(e) => {
                return Err(e);
            },
        };
        if self.balance < total {
            return Err(ContractError::InsufficientBalance);
        }
        match self.assets.increase(asset, count) {
            Ok(_) => {
                self.balance = self.balance - total;
                Ok(total)
            },
            Err(e) => Err(e),
        }
    }

    /// Takes `count` units of `asset` without payment and returns the
    /// quantity that is left.
    pub fn remove(&mut self, asset: &String, count: u64) -> (r: Result<u64, ContractError>)
        requires
            old(self).wf(),
        ensures
            final(self).wf(),
            match after_remove(old(self)@, asset@, count) {
                Ok(p) => final(self)@ == p && r == Ok::<u64, ContractError>(
                    quantity(p.inventory, asset@) as u64,
                ),
                Err(e) => *final(self) == *old(self) && r == Err::<u64, ContractError>(e),
            },
    {
        self.assets.decrease(asset, count)
    }

    /// Gives `count` units of `asset` without payment and returns the new quantity.
    pub fn receive(&mut self, asset: &String, count: u64) -> (r: Result<u64, ContractError>)
        requires
            old(self).wf(),
        ensures
            final(self).wf(),
            match after_receive(old(self)@, asset@, count) {
                Ok(p) => final(self)@ == p && r == Ok::<u64, ContractError>(
                    quantity(p.inventory, asset@) as u64,
                ),
                Err(e) => *final(self) == *old(self) && r == Err::<u64, ContractError>(e),
            },
    {
        self.assets.increase(asset, count)
    }

    /// Adjusts the quantity of `asset` by `count` units without payment,
    /// upwards where `increase` holds, and returns the new quantity.
    pub fn modify(&mut self, asset: &String, count: u64, increase: bool) -> (r: Result<
        u64,
        ContractError,
    >)
        requires
            old(self).wf(),
        ensures
            final(self).wf(),
            match after_modify(old(self)@, asset@, count, increase) {
                Ok(p) => final(self)@ == p && r == Ok::<u64, ContractError>(
                    quantity(p.inventory, asset@) as u64,
                ),
                Err(e) => *final(self) == *old(self) && r == Err::<u64, ContractError>(e),
            },
    {
        if increase {
            self.assets.increase(asset, count)
        } else {
            match self.assets.decrease(asset, count) {
                Err(ContractError::AssetNotFound) => Err(ContractError::InsufficientAssetCount),
                other => other,
            }
        }
    }

    /// Gives `units_give` units of `give`, takes `units_take` units of `take`
    /// and credits `refund` tokens. Fails, changing nothing, when either
    /// inventory change is rejected or the balance would not fit in 128 bits.
    pub fn exchange(
        &mut self,
        give: &String,
        units_give: u64,
        take: &String,
        units_take: u64,
        refund: u128,
    ) -> (r: Result<(), ContractError>)
        requires
            old(self).wf(),
        ensures
            final(self).wf(),
            match after_exchange(old(self)@, give@, units_give, take@, units_take, refund) {
                Ok(p) => final(self)@ == p && r is Ok,
                Err(e) => *final(self) == *old(self) && r == Err::<(), ContractError>(e),
            },
    {
        let mut assets = self.assets.copy();
        match assets.decrease(give, units_give) {
            Ok(_) => {},
            Err(e) => {
                return Err(e);
            },
        }
        match assets.increase(take, units_take) {
            Ok(_) => {},
            Err(e) => {
                return Err(e);
            },
        }
        match self.balance.checked_add(refund) {
            Some(balance) => {
                self.balance = balance;
                self.assets = assets;
                Ok(())
            },
            None => Err(ContractError::ArithmeticOverflow),
        }
    }
}

} // verus!
