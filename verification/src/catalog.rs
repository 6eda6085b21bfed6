//! The catalog: the registered games and the priced assets of each.
//!
//! Entries are only ever appended. An asset identifier may be registered more
//! than once in a game; a lookup then gives the entry that was registered first.

use vstd::prelude::*;
use crate::error::ContractError;
use crate::table::Table;

verus! {

/// The assets of one game with their prices, in the order of registration.
pub type Listing = Seq<(Seq<char>, u128)>;

/// A stored listing as the contracts speak of it.
pub open spec fn listing(entries: Seq<(String, u128)>) -> Listing {
    entries.map_values(|e: (String, u128)| (e.0@, e.1))
}

/// Stored names as the contracts speak of them.
pub open spec fn names(stored: Seq<String>) -> Seq<Seq<char>> {
    stored.map_values(|s: String| s@)
}

/// The price of the first entry of `list` for `asset`, if there is one.
pub open spec fn first_price(list: Listing, asset: Seq<char>) -> Option<u128>
    decreases list.len(),
{
    if list.len() == 0 {
        None
    } else if list[0].0 == asset {
        Some(list[0].1)
    } else {
        first_price(list.drop_first(), asset)
    }
}

/// The catalog as the contracts speak of it.
pub struct CatalogView {
    /// One game identifier per registration, in order; a game may occur more than once.
    pub games: Seq<Seq<char>>,
    /// The listing of each game that has one.
    pub listings: Map<Seq<char>, Listing>,
}

impl CatalogView {
    /// The price of `asset` in `game`.
    pub open spec fn price_in(self, game: Seq<char>, asset: Seq<char>) -> Result<
        u128,
        ContractError,
    > {
        if !self.listings.contains_key(game) {
            Err(ContractError::GameWithoutAssets)
        } else {
            match first_price(self.listings[game], asset) {
                Some(price) => Ok(price),
                None => Err(ContractError::AssetNotFound),
            }
        }
    }

    /// The price of `asset` in the listing of `game`, if it has one.
    pub open spec fn price_of_game(self, game: Seq<char>, asset: Seq<char>) -> Option<u128> {
        if self.listings.contains_key(game) {
            first_price(self.listings[game], asset)
        } else {
            None
        }
    }

    /// The price of `asset` in the first of `games` whose listing has it.
    pub open spec fn price_among(self, games: Seq<Seq<char>>, asset: Seq<char>) -> Option<u128>
        decreases games.len(),
    {
        if games.len() == 0 {
            None
        } else {
            match self.price_of_game(games[0], asset) {
                Some(price) => Some(price),
                None => self.price_among(games.drop_first(), asset),
            }
        }
    }

    /// The price of `asset` over the whole catalog: the games are searched in
    /// the order of registration, each listing from its first entry.
    pub open spec fn price_anywhere(self, asset: Seq<char>) -> Option<u128> {
        self.price_among(self.games, asset)
    }

    /// The listing of `game`, empty where it has none.
    pub open spec fn listing_of(self, game: Seq<char>) -> Listing {
        if self.listings.contains_key(game) {
            self.listings[game]
        } else {
            Seq::empty()
        }
    }

    /// The catalog after `asset` was registered in `game` at `price`.
    pub open spec fn registered(self, game: Seq<char>, asset: Seq<char>, price: u128) -> CatalogView {
        CatalogView {
            games: self.games.push(game),
            listings: self.listings.insert(game, self.listing_of(game).push((asset, price))),
        }
    }
}

/// Where no entry before position `i` is for `asset`, the first price in
/// `list` is the first price from position `i` on.
pub proof fn lemma_first_price_skip(list: Listing, asset: Seq<char>, i: int)
    requires
        0 <= i <= list.len(),
        forall|j: int| 0 <= j < i ==> (#[trigger] list[j]).0 != asset,
    ensures
        first_price(list, asset) == first_price(list.skip(i), asset),
    decreases i,
{
    if i == 0 {
        assert(list.skip(0) =~= list);
    } else {
        lemma_first_price_skip(list, asset, i - 1);
        let rest = list.skip(i - 1);
        assert(rest[0] == list[i - 1]);
        assert(rest.drop_first() =~= list.skip(i));
    }
}

/// Where the entry at position `i` is the first for `asset`, its price is
/// the first price in `list`.
pub proof fn lemma_first_price_at(list: Listing, asset: Seq<char>, i: int)
    requires
        0 <= i < list.len(),
        list[i].0 == asset,
        forall|j: int| 0 <= j < i ==> (#[trigger] list[j]).0 != asset,
    ensures
        first_price(list, asset) == Some(list[i].1),
{
    lemma_first_price_skip(list, asset, i);
    assert(list.skip(i)[0] == list[i]);
}

/// An asset that was registered is in the listing of its game, at its
/// price, after everything that was registered there before.
pub proof fn lemma_registered_is_listed(c: CatalogView, game: Seq<char>, asset: Seq<char>, price: u128)
    ensures
        c.registered(game, asset, price).listings.contains_key(game),
        c.registered(game, asset, price).listings[game] == c.listing_of(game).push((asset, price)),
        c.registered(game, asset, price).listings[game].contains((asset, price)),
        c.registered(game, asset, price).games.last() == game,
        c.registered(game, asset, price).price_in(game, asset) is Ok,
        first_price(c.listing_of(game), asset) is None ==> c.registered(game, asset, price).price_in(
            game,
            asset,
        ) == Ok::<u128, ContractError>(price),
        first_price(c.listing_of(game), asset) is Some ==> c.registered(game, asset, price).price_in(
            game,
            asset,
        ) == c.price_in(game, asset),
{
    let before = c.listing_of(game);
    let after = before.push((asset, price));
    assert(after[before.len() as int] == (asset, price));
    lemma_first_price_push(before, asset, (asset, price));
}

/// Appending an entry to a listing changes no first price that it had, and
/// gives the appended asset its price where it had none.
pub proof fn lemma_first_price_push(list: Listing, asset: Seq<char>, entry: (Seq<char>, u128))
    ensures
        first_price(list, asset) is Some ==> first_price(list.push(entry), asset) == first_price(
            list,
            asset,
        ),
        first_price(list, asset) is None ==> first_price(list.push(entry), asset) == (if entry.0
            == asset {
            Some(entry.1)
        } else {
            None
        }),
    decreases list.len(),
{
    let longer = list.push(entry);
    if list.len() == 0 {
        assert(longer.drop_first() =~= Seq::<(Seq<char>, u128)>::empty());
    } else {
        assert(longer[0] == list[0]);
        assert(longer.drop_first() =~= list.drop_first().push(entry));
        if list[0].0 != asset {
            lemma_first_price_push(list.drop_first(), asset, entry);
        }
    }
}

/// A second stored listing with the same contents.
pub fn copy_listing(entries: &Vec<(String, u128)>) -> (r: Vec<(String, u128)>)
    ensures
        listing(r@) == listing(entries@),
{
    let mut r: Vec<(String, u128)> = Vec::new();
    let mut i: usize = 0;
    while i < entries.len()
        invariant
            i <= entries@.len(),
            r@.len() == i,
            forall|j: int| 0 <= j < i ==> (#[trigger] r@[j]).0@ == entries@[j].0@ && r@[j].1 == entries@[j].1,
        decreases entries@.len() - i,
    {
        r.push((entries[i].0.clone(), entries[i].1));
        i += 1;
    }
    assert(listing(r@) =~= listing(entries@));
    r
}

/// A second list of stored names with the same contents.
pub fn copy_names(stored: &Vec<String>) -> (r: Vec<String>)
    ensures
        names(r@) == names(stored@),
{
    let mut r: Vec<String> = Vec::new();
    let mut i: usize = 0;
    while i < stored.len()
        invariant
            i <= stored@.len(),
            r@.len() == i,
            forall|j: int| 0 <= j < i ==> (#[trigger] r@[j])@ == stored@[j]@,
        decreases stored@.len() - i,
    {
        r.push(stored[i].clone());
        i += 1;
    }
    assert(names(r@) =~= names(stored@));
    r
}

/// The price of the first entry of `entries` for `asset`, if there is one.
pub fn find_in_listing(entries: &Vec<(String, u128)>, asset: &String) -> (r: Option<u128>)
    ensures
        r == first_price(listing(entries@), asset@),
{
    let ghost list = listing(entries@);
    let mut i: usize = 0;
    while i < entries.len()
        invariant
            i <= entries@.len(),
            list == listing(entries@),
            forall|j: int| 0 <= j < i ==> (#[trigger] list[j]).0 != asset@,
        decreases entries@.len() - i,
    {
        if entries[i].0 == *asset {
            proof {
                lemma_first_price_at(list, asset@, i as int);
            }
            return Some(entries[i].1);
        }
        i += 1;
    }
    proof {
        lemma_first_price_skip(list, asset@, list.len() as int);
    }
    None
}

/// The catalog of games and their priced assets.
pub struct Catalog {
    games: Vec<String>,
    listings: Table<String, Vec<(String, u128)>>,
}

impl View for Catalog {
    type V = CatalogView;

    closed spec fn view(&self) -> CatalogView {
        CatalogView {
            games: names(self.games@),
            listings: self.listings@.map_values(|v: Vec<(String, u128)>| listing(v@)),
        }
    }
}

impl CatalogView {
    /// Where none of the first `i` of `games` has a price for `asset`, the
    /// price among `games` is the price among those from position `i` on.
    pub proof fn lemma_price_among_skip(self, games: Seq<Seq<char>>, asset: Seq<char>, i: int)
        requires
            0 <= i <= games.len(),
            forall|j: int| 0 <= j < i ==> self.price_of_game(#[trigger] games[j], asset) is None,
        ensures
            self.price_among(games, asset) == self.price_among(games.skip(i), asset),
        decreases i,
    {
        if i == 0 {
            assert(games.skip(0) =~= games);
        } else {
            self.lemma_price_among_skip(games, asset, i - 1);
            let rest = games.skip(i - 1);
            assert(rest[0] == games[i - 1]);
            assert(rest.drop_first() =~= games.skip(i));
        }
    }
}

impl Catalog {
    /// The table of listings is well formed.
    pub closed spec fn wf(&self) -> bool {
        self.listings.wf()
    }

    /// The empty catalog.
    pub fn new() -> (c: Self)
        ensures
            c.wf(),
            c@.games == Seq::<Seq<char>>::empty(),
            c@.listings == Map::<Seq<char>, Listing>::empty(),
    {
        let c = Catalog { games: Vec::new(), listings: Table::new() };
        assert(c@.games =~= Seq::<Seq<char>>::empty());
        assert(c@.listings =~= Map::<Seq<char>, Listing>::empty());
        c
    }

    /// Replaces the list of games by `games`.
    pub fn set_games(&mut self, games: Vec<String>)
        requires
            old(self).wf(),
        ensures
            final(self).wf(),
            final(self)@.games == names(games@),
            final(self)@.listings == old(self)@.listings,
    {
        self.games = games;
    }

    /// Replaces the listing of `game` by `entries`.
    pub fn set_listing(&mut self, game: String, entries: Vec<(String, u128)>)
        requires
            old(self).wf(),
        ensures
            final(self).wf(),
            final(self)@.games == old(self)@.games,
            final(self)@.listings == old(self)@.listings.insert(game@, listing(entries@)),
    {
        self.listings.insert(game, entries);
        assert(self@.listings =~= old(self)@.listings.insert(game@, listing(entries@)));
    }

    /// Appends `asset` at `price` to the listing of `game`, and `game` to the
    /// list of games. Nothing is checked: an identifier that is registered
    /// again is appended again.
    pub fn register_asset(&mut self, game: String, asset: String, price: u128)
        requires
            old(self).wf(),
        ensures
            final(self).wf(),
            final(self)@ == old(self)@.registered(game@, asset@, price),
    {
        let mut entries = match self.listings.get(&game) {
            Some(stored) => copy_listing(stored),
            None => Vec::new(),
        };
        proof {
            assert(listing(entries@) =~= old(self)@.listing_of(game@));
        }
        let ghost before = entries@;
        entries.push((asset, price));
        proof {
            assert(listing(entries@) =~= listing(before).push((asset@, price)));
        }
        self.listings.insert(game.clone(), entries);
        let ghost stored = self.games@;
        self.games.push(game);
        proof {
            assert(names(self.games@) =~= names(stored).push(game@));
            assert(self@.listings =~= old(self)@.registered(game@, asset@, price).listings);
        }
    }

    /// The price of `asset` in `game`: the first entry for it in the game's
    /// listing. Fails when the game has no listing, or its listing no such asset.
    pub fn find_price(&self, game: &String, asset: &String) -> (r: Result<u128, ContractError>)
        requires
            self.wf(),
        ensures
            r == self@.price_in(game@, asset@),
    {
        match self.listings.get(game) {
            None => Err(ContractError::GameWithoutAssets),
            Some(entries) => match find_in_listing(entries, asset) {
                Some(price) => Ok(price),
                None => Err(ContractError::AssetNotFound),
            },
        }
    }

    /// The price of `asset` over the whole catalog: the games are searched in
    /// the order of registration, each listing from its first entry.
    pub fn resolve_price(&self, asset: &String) -> (r: Option<u128>)
        requires
            self.wf(),
        ensures
            r == self@.price_anywhere(asset@),
    {
        let ghost games = self@.games;
        let mut i: usize = 0;
        while i < self.games.len()
            invariant
                self.wf(),
                i <= self.games@.len(),
                games == self@.games,
                games.len() == self.games@.len(),
                forall|j: int| 0 <= j < i ==> self@.price_of_game(#[trigger] games[j], asset@) is None,
            decreases self.games@.len() - i,
        {
            let found = match self.listings.get(&self.games[i]) {
                Some(entries) => find_in_listing(entries, asset),
                None => None,
            };
            assert(games[i as int] == self.games@[i as int]@);
            assert(found == self@.price_of_game(games[i as int], asset@));
            if let Some(price) = found {
                proof {
                    self@.lemma_price_among_skip(games, asset@, i as int);
                    assert(games.skip(i as int)[0] == games[i as int]);
                }
                return Some(price);
            }
            i += 1;
        }
        proof {
            self@.lemma_price_among_skip(games, asset@, games.len() as int);
        }
        None
    }

    /// The registered games: one identifier per registration, in order.
    pub fn games(&self) -> (r: Vec<String>)
        ensures
            names(r@) == self@.games,
    {
        copy_names(&self.games)
    }

    /// The listing of `game` in the order of registration, if it has one.
    pub fn assets(&self, game: &String) -> (r: Option<Vec<(String, u128)>>)
        requires
            self.wf(),
        ensures
            match r {
                Some(entries) => self@.listings.contains_key(game@) && listing(entries@)
                    == self@.listings[game@],
                None => !self@.listings.contains_key(game@),
            },
    {
        match self.listings.get(game) {
            Some(stored) => Some(copy_listing(stored)),
            None => None,
        }
    }
}

} // verus!
