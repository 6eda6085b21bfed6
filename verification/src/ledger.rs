//! The ledger: the registered accounts and the catalog, and the operations
//! that change them.
//!
//! Every operation names the principal on whose behalf it runs; the ledger
//! takes that principal as verified. An operation checks everything before it
//! writes anything: a rejected operation leaves the ledger as it was.

use vstd::prelude::*;
use crate::account::{
    after_exchange, after_modify, after_purchase, after_receive, after_remove, cost,
    exchange_refund, fresh_player, refund_of, AccountId, Player, PlayerView,
};
use crate::catalog::{listing, names, Catalog, CatalogView};
use crate::error::ContractError;
use crate::events::{
    AssetCreated, AssetExchanged, AssetGifted, AssetModified, AssetPurchased, PlayerCreated,
};
use crate::inventory::all_positive;
use crate::table::{Key, Table};

verus! {

/// The ledger as the contracts speak of it.
pub struct AssetsView {
    /// The account of each registered principal.
    pub players: Map<Seq<u8>, PlayerView>,
    /// The catalog.
    pub catalog: CatalogView,
}

impl AssetsView {
    /// The ledger after `caller` registered under the display name `name`:
    /// an account that was there before is replaced.
    pub open spec fn register_player(self, caller: Seq<u8>, name: Seq<char>) -> AssetsView {
        AssetsView { players: self.players.insert(caller, fresh_player(name)), ..self }
    }

    /// The ledger after `asset` was registered in `game` at `price`.
    pub open spec fn register_asset(self, game: Seq<char>, asset: Seq<char>, price: u128) -> AssetsView {
        AssetsView { catalog: self.catalog.registered(game, asset, price), ..self }
    }

    /// The ledger with `player` stored for `id`.
    pub open spec fn with_player(self, id: Seq<u8>, player: PlayerView) -> AssetsView {
        AssetsView { players: self.players.insert(id, player), ..self }
    }

    /// The ledger after `caller` bought `count` units of `asset` of `game`.
    /// The checks come in this order: the count, the game and the asset, the
    /// account, the total, the balance, the new quantity.
    pub open spec fn purchase(self, caller: Seq<u8>, game: Seq<char>, asset: Seq<char>, count: u64) -> Result<
        AssetsView,
        ContractError,
    > {
        if count == 0 {
            Err(ContractError::InvalidAmount)
        } else {
            match self.catalog.price_in(game, asset) {
                Err(e) => Err(e),
                Ok(price) => if !self.players.contains_key(caller) {
                    Err(ContractError::PlayerNotFound)
                } else {
                    match after_purchase(self.players[caller], asset, count, price) {
                        Err(e) => Err(e),
                        Ok(p) => Ok(self.with_player(caller, p)),
                    }
                },
            }
        }
    }

    /// The ledger after `count` units of `asset` were taken from `caller`
    /// without payment.
    pub open spec fn remove(self, caller: Seq<u8>, asset: Seq<char>, count: u64) -> Result<
        AssetsView,
        ContractError,
    > {
        if count == 0 {
            Err(ContractError::InvalidAmount)
        } else if !self.players.contains_key(caller) {
            Err(ContractError::PlayerNotFound)
        } else {
            match after_remove(self.players[caller], asset, count) {
                Err(e) => Err(e),
                Ok(p) => Ok(self.with_player(caller, p)),
            }
        }
    }

    /// The ledger after `sender` gave `amount` units of `asset` to
    /// `receiver`. Both new records are computed from the ledger as it was,
    /// then the sender's is written, then the receiver's.
    pub open spec fn gift(self, sender: Seq<u8>, receiver: Seq<u8>, asset: Seq<char>, amount: u64) -> Result<
        AssetsView,
        ContractError,
    > {
        if amount == 0 {
            Err(ContractError::InvalidAmount)
        } else if !self.players.contains_key(sender) {
            Err(ContractError::PlayerNotFound)
        } else {
            match after_remove(self.players[sender], asset, amount) {
                Err(e) => Err(e),
                Ok(s) => if !self.players.contains_key(receiver) {
                    Err(ContractError::PlayerNotFound)
                } else {
                    match after_receive(self.players[receiver], asset, amount) {
                        Err(e) => Err(e),
                        Ok(r) => Ok(self.with_player(sender, s).with_player(receiver, r)),
                    }
                },
            }
        }
    }

    /// What an exchange by any account of `units_give` units of `give` for
    /// `units_take` units of `take` returns to the balance, at the prices
    /// that the catalog gives.
    pub open spec fn exchange_terms(
        self,
        give: Seq<char>,
        units_give: i64,
        take: Seq<char>,
        units_take: i64,
    ) -> Result<u128, ContractError> {
        if units_give <= 0 || units_take <= 0 {
            Err(ContractError::InvalidAmount)
        } else {
            match (self.catalog.price_anywhere(give), self.catalog.price_anywhere(take)) {
                (Some(price_give), Some(price_take)) => refund_of(
                    price_give,
                    units_give as u64,
                    price_take,
                    units_take as u64,
                ),
                _ => Err(ContractError::AssetNotFound),
            }
        }
    }

    /// The ledger after `caller` exchanged `units_give` units of `give` for
    /// `units_take` units of `take`.
    pub open spec fn exchange(
        self,
        caller: Seq<u8>,
        give: Seq<char>,
        units_give: i64,
        take: Seq<char>,
        units_take: i64,
    ) -> Result<AssetsView, ContractError> {
        match self.exchange_terms(give, units_give, take, units_take) {
            Err(e) => Err(e),
            Ok(refund) => if !self.players.contains_key(caller) {
                Err(ContractError::PlayerNotFound)
            } else {
                match after_exchange(
                    self.players[caller],
                    give,
                    units_give as u64,
                    take,
                    units_take as u64,
                    refund,
                ) {
                    Err(e) => Err(e),
                    Ok(p) => Ok(self.with_player(caller, p)),
                }
            },
        }
    }

    /// The ledger after the quantity that `caller` owns of `asset` was
    /// adjusted by `count` units, upwards where `increase` holds.
    pub open spec fn modify(self, caller: Seq<u8>, asset: Seq<char>, count: i64, increase: bool) -> Result<
        AssetsView,
        ContractError,
    > {
        if count <= 0 {
            Err(ContractError::InvalidAmount)
        } else if !self.players.contains_key(caller) {
            Err(ContractError::PlayerNotFound)
        } else {
            match after_modify(self.players[caller], asset, count as u64, increase) {
                Err(e) => Err(e),
                Ok(p) => Ok(self.with_player(caller, p)),
            }
        }
    }
}

/// A purchase whose total price exceeds the balance is rejected for want of
/// funds. (The operation itself states that a rejected call changes nothing.)
pub proof fn lemma_purchase_without_funds(
    s: AssetsView,
    caller: Seq<u8>,
    game: Seq<char>,
    asset: Seq<char>,
    count: u64,
)
    requires
        count > 0,
        s.catalog.price_in(game, asset) is Ok,
        s.players.contains_key(caller),
        cost(s.catalog.price_in(game, asset)->Ok_0, count) <= u128::MAX,
        s.players[caller].balance < cost(s.catalog.price_in(game, asset)->Ok_0, count),
    ensures
        s.purchase(caller, game, asset, count) == Err::<AssetsView, ContractError>(
            ContractError::InsufficientBalance,
        ),
{
}

/// A successful purchase takes exactly the total price from the balance and
/// adds exactly `count` units of the asset.
pub proof fn lemma_purchase_pays_total(
    s: AssetsView,
    caller: Seq<u8>,
    game: Seq<char>,
    asset: Seq<char>,
    count: u64,
)
    requires
        s.purchase(caller, game, asset, count) is Ok,
    ensures
        s.catalog.price_in(game, asset) is Ok,
        s.players.contains_key(caller),
        s.purchase(caller, game, asset, count)->Ok_0.players[caller].balance
            == s.players[caller].balance - cost(s.catalog.price_in(game, asset)->Ok_0, count),
        crate::inventory::quantity(
            s.purchase(caller, game, asset, count)->Ok_0.players[caller].inventory,
            asset,
        ) == crate::inventory::quantity(s.players[caller].inventory, asset) + count,
{
}

/// A successful gift between two different accounts moves exactly `amount`
/// units of the asset: the sender owns `amount` fewer, the receiver `amount`
/// more, and the two together as many as before. No balance changes.
pub proof fn lemma_gift_conserves(
    s: AssetsView,
    sender: Seq<u8>,
    receiver: Seq<u8>,
    asset: Seq<char>,
    amount: u64,
)
    requires
        sender != receiver,
        s.gift(sender, receiver, asset, amount) is Ok,
    ensures
        ({
            let t = s.gift(sender, receiver, asset, amount)->Ok_0;
            let before_s = crate::inventory::quantity(s.players[sender].inventory, asset);
            let before_r = crate::inventory::quantity(s.players[receiver].inventory, asset);
            let after_s = crate::inventory::quantity(t.players[sender].inventory, asset);
            let after_r = crate::inventory::quantity(t.players[receiver].inventory, asset);
            &&& before_s - amount == after_s
            &&& after_r - before_r == amount
            &&& after_s + after_r == before_s + before_r
            &&& t.players[sender].balance == s.players[sender].balance
            &&& t.players[receiver].balance == s.players[receiver].balance
        }),
{
}

/// An exchange succeeds only where the value given covers the value taken,
/// and then credits the balance with exactly the difference, once.
pub proof fn lemma_exchange_refunds_difference(
    s: AssetsView,
    caller: Seq<u8>,
    give: Seq<char>,
    units_give: i64,
    take: Seq<char>,
    units_take: i64,
)
    requires
        s.exchange(caller, give, units_give, take, units_take) is Ok,
    ensures
        units_give > 0 && units_take > 0,
        s.catalog.price_anywhere(give) is Some,
        s.catalog.price_anywhere(take) is Some,
        ({
            let total_give = cost(s.catalog.price_anywhere(give)->Some_0, units_give as u64);
            let total_take = cost(s.catalog.price_anywhere(take)->Some_0, units_take as u64);
            let t = s.exchange(caller, give, units_give, take, units_take)->Ok_0;
            &&& total_give >= total_take
            &&& s.exchange_terms(give, units_give, take, units_take) == Ok::<u128, ContractError>(
                (total_give - total_take) as u128,
            )
            &&& t.players[caller].balance == s.players[caller].balance + (total_give - total_take)
        }),
{
}

/// An exchange in which the value given is less than the value taken is
/// rejected, whatever the account holds.
pub proof fn lemma_exchange_needs_cover(
    s: AssetsView,
    caller: Seq<u8>,
    give: Seq<char>,
    units_give: i64,
    take: Seq<char>,
    units_take: i64,
)
    requires
        units_give > 0,
        units_take > 0,
        s.catalog.price_anywhere(give) is Some,
        s.catalog.price_anywhere(take) is Some,
        cost(s.catalog.price_anywhere(give)->Some_0, units_give as u64) < cost(
            s.catalog.price_anywhere(take)->Some_0,
            units_take as u64,
        ),
    ensures
        s.exchange(caller, give, units_give, take, units_take) is Err,
{
}

/// Registering a principal gives it the initial balance and an empty
/// inventory, whatever account it had before, and changes no other account.
pub proof fn lemma_registration_resets(s: AssetsView, caller: Seq<u8>, name: Seq<char>)
    ensures
        s.register_player(caller, name).players.contains_key(caller),
        s.register_player(caller, name).players[caller].balance == crate::account::INITIAL_BALANCE,
        s.register_player(caller, name).players[caller].inventory == Map::<Seq<char>, u64>::empty(),
        s.register_player(caller, name).players[caller].name == name,
        forall|asset: Seq<char>|
            crate::inventory::quantity(
                s.register_player(caller, name).players[caller].inventory,
                asset,
            ) == 0,
        forall|other: Seq<u8>|
            other != caller ==> s.register_player(caller, name).players.contains_key(other)
                == s.players.contains_key(other) && s.register_player(caller, name).players[other]
                == s.players[other],
{
}

/// An asset that was registered is in the listing of its game, at its price.
pub proof fn lemma_registered_asset_is_listed(
    s: AssetsView,
    game: Seq<char>,
    name: Seq<char>,
    price: u128,
)
    ensures
        s.register_asset(game, name, price).catalog.listings.contains_key(game),
        s.register_asset(game, name, price).catalog.listings[game].contains((name, price)),
        s.register_asset(game, name, price).players == s.players,
{
    crate::catalog::lemma_registered_is_listed(s.catalog, game, name, price);
}

/// The accounts and the catalog.
pub struct Assets {
    players: Table<AccountId, Player>,
    catalog: Catalog,
}

impl View for Assets {
    type V = AssetsView;

    closed spec fn view(&self) -> AssetsView {
        AssetsView { players: self.players@.map_values(|p: Player| p@), catalog: self.catalog@ }
    }
}

impl Assets {
    /// Both tables and every stored account are well formed.
    pub closed spec fn wf(&self) -> bool {
        &&& self.players.wf()
        &&& self.catalog.wf()
        &&& forall|id: Seq<u8>| self.players@.contains_key(id) ==> (#[trigger] self.players@[id]).wf()
    }

    /// In a well-formed ledger every account's stored quantities are
    /// positive, and its balance, an unsigned integer, is never negative.
    pub proof fn lemma_accounts_sound(&self)
        requires
            self.wf(),
        ensures
            forall|id: Seq<u8>| #[trigger]
                self@.players.contains_key(id) ==> self@.players[id].balance >= 0 && all_positive(
                    self@.players[id].inventory,
                ),
    {
        assert forall|id: Seq<u8>| #[trigger] self@.players.contains_key(id) implies all_positive(
            self@.players[id].inventory,
        ) by {
            assert(self.players@[id].wf());
            self.players@[id].lemma_positive();
        }
    }

    /// Stores `player` for `id`, in place of the account stored for it before.
    pub fn set_player(&mut self, id: AccountId, player: Player)
        requires
            old(self).wf(),
            player.wf(),
        ensures
            final(self).wf(),
            final(self)@.players == old(self)@.players.insert(id@, player@),
            final(self)@.catalog == old(self)@.catalog,
    {
        self.players.insert(id, player);
        assert(self@.players =~= old(self)@.players.insert(id@, player@));
    }

    /// Replaces the list of games by `games`.
    pub fn set_games(&mut self, games: Vec<String>)
        requires
            old(self).wf(),
        ensures
            final(self).wf(),
            final(self)@.players == old(self)@.players,
            final(self)@.catalog.games == names(games@),
            final(self)@.catalog.listings == old(self)@.catalog.listings,
    {
        self.catalog.set_games(games);
    }

    /// Replaces the listing of `game` by `entries`.
    pub fn set_listing(&mut self, game: String, entries: Vec<(String, u128)>)
        requires
            old(self).wf(),
        ensures
            final(self).wf(),
            final(self)@.players == old(self)@.players,
            final(self)@.catalog.games == old(self)@.catalog.games,
            final(self)@.catalog.listings == old(self)@.catalog.listings.insert(
                game@,
                listing(entries@),
            ),
    {
        self.catalog.set_listing(game, entries);
    }

    /// A copy of the account stored for `id`, if there is one.
    fn load(&self, id: &AccountId) -> (r: Option<Player>)
        requires
            self.wf(),
        ensures
            match r {
                Some(p) => p.wf() && self@.players.contains_key(id@) && p@ == self@.players[id@],
                None => !self@.players.contains_key(id@),
            },
    {
        match self.players.get(id) {
            Some(p) => Some(p.copy()),
            None => None,
        }
    }

    /// The ledger without accounts or assets.
    pub fn new() -> (s: Self)
        ensures
            s.wf(),
            s@.players == Map::<Seq<u8>, PlayerView>::empty(),
            s@.catalog.games == Seq::<Seq<char>>::empty(),
            s@.catalog.listings == Map::<Seq<char>, crate::catalog::Listing>::empty(),
    {
        let s = Assets { players: Table::new(), catalog: Catalog::new() };
        assert(s@.players =~= Map::<Seq<u8>, PlayerView>::empty());
        s
    }

    /// Registers `caller` under the display name `name`, with the initial
    /// balance and an empty inventory. An account that `caller` had before is
    /// replaced: its balance and inventory are lost.
    pub fn register_player(&mut self, caller: AccountId, name: String) -> (ev: PlayerCreated)
        requires
            old(self).wf(),
        ensures
            final(self).wf(),
            final(self)@ == old(self)@.register_player(caller@, name@),
            ev.account@ == caller@,
            ev.name@ == name@,
    {
        let player = Player::new(name.clone());
        self.set_player(caller, player);
        PlayerCreated { account: caller, name }
    }

    /// A copy of the account of `caller`, if it is registered.
    pub fn auth_player(&self, caller: AccountId) -> (r: Option<Player>)
        requires
            self.wf(),
        ensures
            match r {
                Some(p) => p.wf() && self@.players.contains_key(caller@) && p@
                    == self@.players[caller@],
                None => !self@.players.contains_key(caller@),
            },
    {
        self.load(&caller)
    }

    /// The price of `asset` in `game`: the first entry for it in the game's
    /// listing. Fails when the game has no listing, or its listing no such asset.
    pub fn find_price(&self, game: &String, asset: &String) -> (r: Result<u128, ContractError>)
        requires
            self.wf(),
        ensures
            r == self@.catalog.price_in(game@, asset@),
    {
        self.catalog.find_price(game, asset)
    }

    /// The registered games: one identifier per registration, in order.
    pub fn games(&self) -> (r: Vec<String>)
        ensures
            names(r@) == self@.catalog.games,
    {
        self.catalog.games()
    }

    /// Registers `name` in `game` at `price`. Nothing is checked: an
    /// identifier that is registered again is appended again, and lookups
    /// keep giving the entry that was registered first.
    pub fn register_asset(&mut self, game: String, name: String, price: u128) -> (ev: AssetCreated)
        requires
            old(self).wf(),
        ensures
            final(self).wf(),
            final(self)@ == old(self)@.register_asset(game@, name@, price),
            ev.game@ == game@,
            ev.name@ == name@,
            ev.price == price,
    {
        self.catalog.register_asset(game.clone(), name.clone(), price);
        AssetCreated { game, name, price }
    }

    /// The listing of `game` in the order of registration, if it has one.
    pub fn assets(&self, game: String) -> (r: Option<Vec<(String, u128)>>)
        requires
            self.wf(),
        ensures
            match r {
                Some(entries) => self@.catalog.listings.contains_key(game@) && listing(entries@)
                    == self@.catalog.listings[game@],
                None => !self@.catalog.listings.contains_key(game@),
            },
    {
        self.catalog.assets(&game)
    }

    /// Buys `count` units of `asset` of `game` for `caller`: the total price
    /// leaves the balance and the units enter the inventory.
    pub fn purchase_asset(&mut self, caller: AccountId, game: String, asset: String, count: u64) -> (r:
        Result<AssetPurchased, ContractError>)
        requires
            old(self).wf(),
        ensures
            final(self).wf(),
            match old(self)@.purchase(caller@, game@, asset@, count) {
                Ok(s) => final(self)@ == s && match r {
                    Ok(ev) => ev.account@ == caller@ && ev.asset@ == asset@ && ev.count == count
                        && ev.total_price == old(self)@.players[caller@].balance
                        - s.players[caller@].balance,
                    Err(_) => false,
                },
                Err(e) => *final(self) == *old(self) && r == Err::<AssetPurchased, ContractError>(
                    e,
                ),
            },
    {
        if count == 0 {
            return Err(ContractError::InvalidAmount);
        }
        let price = match self.catalog.find_price(&game, &asset) {
            Ok(p) => p,
            Err(e) => {
                return Err(e);
            },
        };
        let mut player = match self.load(&caller) {
            Some(p) => p,
            None => {
                return Err(ContractError::PlayerNotFound);
            },
        };
        let total = match player.purchase(&asset, count, price) {
            Ok(t) => t,
            Err(e) => {
                return Err(e);
            },
        };
        self.set_player(caller, player);
        Ok(AssetPurchased { account: caller, asset, count, total_price: total })
    }

    /// Takes `count` units of `asset` from the inventory of `caller` without payment.
    pub fn remove_asset(&mut self, caller: AccountId, asset: String, count: u64) -> (r: Result<
        AssetModified,
        ContractError,
    >)
        requires
            old(self).wf(),
        ensures
            final(self).wf(),
            match old(self)@.remove(caller@, asset@, count) {
                Ok(s) => final(self)@ == s && match r {
                    Ok(ev) => ev.account@ == caller@ && ev.asset@ == asset@ && ev.new_count
                        == crate::inventory::quantity(s.players[caller@].inventory, asset@)
                        && !ev.increased,
                    Err(_) => false,
                },
                Err(e) => *final(self) == *old(self) && r == Err::<AssetModified, ContractError>(e),
            },
    {
        if count == 0 {
            return Err(ContractError::InvalidAmount);
        }
        let mut player = match self.load(&caller) {
            Some(p) => p,
            None => {
                return Err(ContractError::PlayerNotFound);
            },
        };
        let new_count = match player.remove(&asset, count) {
            Ok(n) => n,
            Err(e) => {
                return Err(e);
            },
        };
        self.set_player(caller, player);
        Ok(AssetModified { account: caller, asset, new_count, increased: false })
    }

    /// Gives `amount` units of `asset` from the inventory of `caller` to
    /// `receiver`. Both accounts must be registered: a gift creates none.
    ///
    /// Both new records are computed from the ledger as it was before the
    /// call, and the receiver's is written last. So where `caller` and
    /// `receiver` are the same account, that account ends with `amount` more
    /// units, provided it owned `amount` before.
    pub fn gift_asset(&mut self, caller: AccountId, receiver: AccountId, asset: String, amount: u64) -> (r:
        Result<AssetGifted, ContractError>)
        requires
            old(self).wf(),
        ensures
            final(self).wf(),
            match old(self)@.gift(caller@, receiver@, asset@, amount) {
                Ok(s) => final(self)@ == s && match r {
                    Ok(ev) => ev.from@ == caller@ && ev.to@ == receiver@ && ev.asset@ == asset@
                        && ev.count == amount,
                    Err(_) => false,
                },
                Err(e) => *final(self) == *old(self) && r == Err::<AssetGifted, ContractError>(e),
            },
    {
        if amount == 0 {
            return Err(ContractError::InvalidAmount);
        }
        let mut giver = match self.load(&caller) {
            Some(p) => p,
            None => {
                return Err(ContractError::PlayerNotFound);
            },
        };
        match giver.remove(&asset, amount) {
            Ok(_) => {},
            Err(e) => {
                return Err(e);
            },
        }
        let mut taker = match self.load(&receiver) {
            Some(p) => p,
            None => {
                return Err(ContractError::PlayerNotFound);
            },
        };
        match taker.receive(&asset, amount) {
            Ok(_) => {},
            Err(e) => {
                return Err(e);
            },
        }
        self.set_player(caller, giver);
        self.set_player(receiver, taker);
        Ok(AssetGifted { from: caller, to: receiver, asset, count: amount })
    }

    /// Adjusts the quantity that `caller` owns of `asset` by `count` units
    /// without payment, upwards where `increase` holds.
    pub fn modify_asset(&mut self, caller: AccountId, asset: String, count: i64, increase: bool) -> (r:
        Result<AssetModified, ContractError>)
        requires
            old(self).wf(),
        ensures
            final(self).wf(),
            match old(self)@.modify(caller@, asset@, count, increase) {
                Ok(s) => final(self)@ == s && match r {
                    Ok(ev) => ev.account@ == caller@ && ev.asset@ == asset@ && ev.new_count
                        == crate::inventory::quantity(s.players[caller@].inventory, asset@)
                        && ev.increased == increase,
                    Err(_) => false,
                },
                Err(e) => *final(self) == *old(self) && r == Err::<AssetModified, ContractError>(e),
            },
    {
        if count <= 0 {
            return Err(ContractError::InvalidAmount);
        }
        let mut player = match self.load(&caller) {
            Some(p) => p,
            None => {
                return Err(ContractError::PlayerNotFound);
            },
        };
        let new_count = match player.modify(&asset, count as u64, increase) {
            Ok(n) => n,
            Err(e) => {
                return Err(e);
            },
        };
        self.set_player(caller, player);
        Ok(AssetModified { account: caller, asset, new_count, increased: increase })
    }

    /// Exchanges `units_give` units of `asset_give` from the inventory of
    /// `caller` for `units_take` units of `asset_take`. The value given must
    /// cover the value taken; what it exceeds it by is credited to the balance.
    pub fn exchange_asset(
        &mut self,
        caller: AccountId,
        asset_give: String,
        units_give: i64,
        asset_take: String,
        units_take: i64,
    ) -> (r: Result<AssetExchanged, ContractError>)
        requires
            old(self).wf(),
        ensures
            final(self).wf(),
            match old(self)@.exchange(caller@, asset_give@, units_give, asset_take@, units_take) {
                Ok(s) => final(self)@ == s && match r {
                    Ok(ev) => ev.account@ == caller@ && ev.from_asset@ == asset_give@
                        && ev.to_asset@ == asset_take@ && ev.from_count == units_give
                        && ev.to_count == units_take && Ok::<u128, ContractError>(ev.refund)
                        == old(self)@.exchange_terms(
                        asset_give@,
                        units_give,
                        asset_take@,
                        units_take,
                    ),
                    Err(_) => false,
                },
                Err(e) => *final(self) == *old(self) && r == Err::<AssetExchanged, ContractError>(
                    e,
                ),
            },
    {
        if units_give <= 0 || units_take <= 0 {
            return Err(ContractError::InvalidAmount);
        }
        let price_give = self.catalog.resolve_price(&asset_give);
        let price_take = self.catalog.resolve_price(&asset_take);
        let (price_give, price_take) = match (price_give, price_take) {
            (Some(g), Some(t)) => (g, t),
            _ => {
                return Err(ContractError::AssetNotFound);
            },
        };
        let refund = match exchange_refund(
            price_give,
            units_give as u64,
            price_take,
            units_take as u64,
        ) {
            Ok(x) => x,
            Err(e) => {
                return Err(e);
            },
        };
        let mut player = match self.load(&caller) {
            Some(p) => p,
            None => {
                return Err(ContractError::PlayerNotFound);
            },
        };
        match player.exchange(&asset_give, units_give as u64, &asset_take, units_take as u64, refund) {
            Ok(_) => {},
            Err(e) => {
                return Err(e);
            },
        }
        self.set_player(caller, player);
        Ok(
            AssetExchanged {
                account: caller,
                from_asset: asset_give,
                to_asset: asset_take,
                from_count: units_give,
                to_count: units_take,
                refund,
            },
        )
    }
}

} // verus!
