//! The records that the ledger hands back for every change it makes, for
//! the caller to publish.

use vstd::prelude::*;
use crate::account::AccountId;

verus! {

/// An account was registered.
#[derive(Debug, Clone, PartialEq, Eq)]
pub struct PlayerCreated {
    /// The principal of the new account.
    pub account: AccountId,
    /// The display name of the new account.
    pub name: String,
}

/// An asset was added to the catalog.
#[derive(Debug, Clone, PartialEq, Eq)]
pub struct AssetCreated {
    /// The game to which the asset belongs.
    pub game: String,
    /// The identifier of the asset.
    pub name: String,
    /// The price of one unit, in tokens.
    pub price: u128,
}

/// An account bought units of an asset.
#[derive(Debug, Clone, PartialEq, Eq)]
pub struct AssetPurchased {
    /// The account that bought.
    pub account: AccountId,
    /// The asset bought.
    pub asset: String,
    /// The number of units bought.
    pub count: u64,
    /// The tokens paid for them.
    pub total_price: u128,
}

/// An account gave units of an asset to another account.
#[derive(Debug, Clone, PartialEq, Eq)]
pub struct AssetGifted {
    /// The account that gave.
    pub from: AccountId,
    /// The account that received.
    pub to: AccountId,
    /// The asset given.
    pub asset: String,
    /// The number of units given.
    pub count: u64,
}

/// An account exchanged units of one asset for units of another.
#[derive(Debug, Clone, PartialEq, Eq)]
pub struct AssetExchanged {
    /// The account that exchanged.
    pub account: AccountId,
    /// The asset given.
    pub from_asset: String,
    /// The asset taken.
    pub to_asset: String,
    /// The number of units given.
    pub from_count: i64,
    /// The number of units taken.
    pub to_count: i64,
    /// The tokens credited: the value given less the value taken.
    pub refund: u128,
}

/// The quantity that an account owns of an asset was adjusted without payment.
#[derive(Debug, Clone, PartialEq, Eq)]
pub struct AssetModified {
    /// The account whose inventory changed.
    pub account: AccountId,
    /// The asset adjusted.
    pub asset: String,
    /// The quantity owned after the adjustment.
    pub new_count: u64,
    /// Whether the quantity went up.
    pub increased: bool,
}

} // verus!
