//! The reasons for which the ledger rejects an operation.

use vstd::prelude::*;

verus! {

/// Why an operation was rejected. A rejected operation changes nothing.
#[derive(Debug, Clone, Copy, PartialEq, Eq, Structural)]
pub enum ContractError {
    /// The asset is not in the catalog, or not in the inventory it is taken from.
    AssetNotFound,
    /// The game has no registered assets.
    GameWithoutAssets,
    /// The balance, or the value given in an exchange, does not cover the cost.
    InsufficientBalance,
    /// No account is registered for the principal.
    PlayerNotFound,
    /// The inventory holds fewer units of the asset than are to be taken.
    InsufficientAssetCount,
    /// A quantity argument is not positive.
    InvalidAmount,
    /// A price total, a quantity or a balance would leave its integer range.
    ArithmeticOverflow,
}

} // verus!
