use assets::account::{AccountId, INITIAL_BALANCE};
use assets::error::ContractError;
use assets::ledger::Assets;

fn id(b: u8) -> AccountId {
    AccountId { bytes: [b; 32] }
}

fn s(text: &str) -> String {
    String::from(text)
}

/// A ledger with one asset ("g", "sword", 10) and the players 1 and 2.
fn ledger() -> Assets {
    let mut a = Assets::new();
    a.register_asset(s("g"), s("sword"), 10);
    a.register_player(id(1), s("alice"));
    a.register_player(id(2), s("bob"));
    a
}

#[test]
fn new_ledger_is_empty() {
    let a = Assets::new();
    assert!(a.games().is_empty());
    assert!(a.assets(s("g")).is_none());
    assert!(a.auth_player(id(1)).is_none());
}

#[test]
fn register_player_grants_initial_balance() {
    let mut a = Assets::new();
    let ev = a.register_player(id(7), s("carol"));
    assert_eq!(ev.account, id(7));
    assert_eq!(ev.name, "carol");
    let p = a.auth_player(id(7)).unwrap();
    assert_eq!(p.name(), "carol");
    assert_eq!(p.balance(), 1_000_000);
    assert_eq!(INITIAL_BALANCE, 1_000_000);
    assert_eq!(p.quantity(&s("sword")), 0);
}

#[test]
fn purchase_three_swords_at_ten() {
    let mut a = Assets::new();
    a.register_asset(s("g"), s("sword"), 10);
    a.register_player(id(1), s("alice"));
    // bring the balance down to 100: buy 99_990 swords, then drop them
    let ev = a.purchase_asset(id(1), s("g"), s("sword"), 99_990).unwrap();
    assert_eq!(ev.total_price, 999_900);
    a.remove_asset(id(1), s("sword"), 99_990).unwrap();
    assert_eq!(a.auth_player(id(1)).unwrap().balance(), 100);

    let ev = a.purchase_asset(id(1), s("g"), s("sword"), 3).unwrap();
    assert_eq!(ev.account, id(1));
    assert_eq!(ev.asset, "sword");
    assert_eq!(ev.count, 3);
    assert_eq!(ev.total_price, 30);
    let p = a.auth_player(id(1)).unwrap();
    assert_eq!(p.balance(), 70);
    assert_eq!(p.quantity(&s("sword")), 3);
}

#[test]
fn purchase_without_funds_changes_nothing() {
    let mut a = ledger();
    a.register_asset(s("g"), s("castle"), 600_000);
    a.purchase_asset(id(1), s("g"), s("sword"), 2).unwrap();
    let r = a.purchase_asset(id(1), s("g"), s("castle"), 2);
    assert_eq!(r, Err(ContractError::InsufficientBalance));
    let p = a.auth_player(id(1)).unwrap();
    assert_eq!(p.balance(), 999_980);
    assert_eq!(p.quantity(&s("sword")), 2);
    assert_eq!(p.quantity(&s("castle")), 0);
}

#[test]
fn purchase_rejects_in_order() {
    let mut a = ledger();
    // the count comes first
    assert_eq!(a.purchase_asset(id(9), s("nogame"), s("sword"), 0), Err(ContractError::InvalidAmount));
    // then the game, then the asset
    assert_eq!(a.purchase_asset(id(9), s("nogame"), s("sword"), 1), Err(ContractError::GameWithoutAssets));
    assert_eq!(a.purchase_asset(id(9), s("g"), s("axe"), 1), Err(ContractError::AssetNotFound));
    // then the account
    assert_eq!(a.purchase_asset(id(9), s("g"), s("sword"), 1), Err(ContractError::PlayerNotFound));
    // then the total and the balance
    a.register_asset(s("g"), s("moon"), u128::MAX);
    assert_eq!(a.purchase_asset(id(1), s("g"), s("moon"), 2), Err(ContractError::ArithmeticOverflow));
    assert_eq!(a.purchase_asset(id(1), s("g"), s("moon"), 1), Err(ContractError::InsufficientBalance));
}

#[test]
fn purchase_quantity_overflow_is_rejected() {
    let mut a = ledger();
    a.register_asset(s("g"), s("dust"), 0);
    a.purchase_asset(id(1), s("g"), s("dust"), u64::MAX).unwrap();
    assert_eq!(a.purchase_asset(id(1), s("g"), s("dust"), 1), Err(ContractError::ArithmeticOverflow));
    let p = a.auth_player(id(1)).unwrap();
    assert_eq!(p.quantity(&s("dust")), u64::MAX);
    assert_eq!(p.balance(), 1_000_000);
}

#[test]
fn purchase_spends_whole_balance() {
    let mut a = ledger();
    let ev = a.purchase_asset(id(1), s("g"), s("sword"), 100_000).unwrap();
    assert_eq!(ev.total_price, 1_000_000);
    let p = a.auth_player(id(1)).unwrap();
    assert_eq!(p.balance(), 0);
    assert_eq!(p.quantity(&s("sword")), 100_000);
    assert_eq!(a.purchase_asset(id(1), s("g"), s("sword"), 1), Err(ContractError::InsufficientBalance));
}

#[test]
fn purchase_uses_first_registered_price() {
    let mut a = ledger();
    a.register_asset(s("g"), s("sword"), 25);
    let ev = a.purchase_asset(id(1), s("g"), s("sword"), 2).unwrap();
    assert_eq!(ev.total_price, 20);
    assert_eq!(a.find_price(&s("g"), &s("sword")), Ok(10));
}

#[test]
fn inventory_matches_exact_identifier() {
    let mut a = ledger();
    a.register_asset(s("g"), s("sworddeluxe"), 50);
    a.purchase_asset(id(1), s("g"), s("sworddeluxe"), 2).unwrap();
    let p = a.auth_player(id(1)).unwrap();
    assert_eq!(p.quantity(&s("sword")), 0);
    assert_eq!(p.quantity(&s("sworddeluxe")), 2);
    assert_eq!(a.remove_asset(id(1), s("sword"), 1), Err(ContractError::AssetNotFound));
    a.purchase_asset(id(1), s("g"), s("sword"), 1).unwrap();
    let p = a.auth_player(id(1)).unwrap();
    assert_eq!(p.quantity(&s("sword")), 1);
    assert_eq!(p.quantity(&s("sworddeluxe")), 2);
}

#[test]
fn remove_asset_takes_units_without_payment() {
    let mut a = ledger();
    a.purchase_asset(id(1), s("g"), s("sword"), 5).unwrap();
    let ev = a.remove_asset(id(1), s("sword"), 2).unwrap();
    assert_eq!(ev.account, id(1));
    assert_eq!(ev.asset, "sword");
    assert_eq!(ev.new_count, 3);
    assert!(!ev.increased);
    let p = a.auth_player(id(1)).unwrap();
    assert_eq!(p.quantity(&s("sword")), 3);
    assert_eq!(p.balance(), 999_950);
}

#[test]
fn remove_asset_rejections() {
    let mut a = ledger();
    a.purchase_asset(id(1), s("g"), s("sword"), 5).unwrap();
    assert_eq!(a.remove_asset(id(1), s("sword"), 0), Err(ContractError::InvalidAmount));
    assert_eq!(a.remove_asset(id(9), s("sword"), 1), Err(ContractError::PlayerNotFound));
    assert_eq!(a.remove_asset(id(1), s("axe"), 1), Err(ContractError::AssetNotFound));
    assert_eq!(a.remove_asset(id(1), s("sword"), 6), Err(ContractError::InsufficientAssetCount));
    assert_eq!(a.auth_player(id(1)).unwrap().quantity(&s("sword")), 5);
}

#[test]
fn remove_to_zero_drops_the_entry() {
    let mut a = ledger();
    a.purchase_asset(id(1), s("g"), s("sword"), 5).unwrap();
    let ev = a.remove_asset(id(1), s("sword"), 5).unwrap();
    assert_eq!(ev.new_count, 0);
    let p = a.auth_player(id(1)).unwrap();
    assert_eq!(p.quantity(&s("sword")), 0);
    assert!(p.inventory().holdings().is_empty());
    assert_eq!(a.remove_asset(id(1), s("sword"), 1), Err(ContractError::AssetNotFound));
}

#[test]
fn gift_moves_units_between_accounts() {
    let mut a = ledger();
    a.purchase_asset(id(1), s("g"), s("sword"), 5).unwrap();
    a.purchase_asset(id(2), s("g"), s("sword"), 1).unwrap();
    let ev = a.gift_asset(id(1), id(2), s("sword"), 3).unwrap();
    assert_eq!(ev.from, id(1));
    assert_eq!(ev.to, id(2));
    assert_eq!(ev.asset, "sword");
    assert_eq!(ev.count, 3);
    let giver = a.auth_player(id(1)).unwrap();
    let taker = a.auth_player(id(2)).unwrap();
    assert_eq!(giver.quantity(&s("sword")), 2);
    assert_eq!(taker.quantity(&s("sword")), 4);
    assert_eq!(giver.quantity(&s("sword")) + taker.quantity(&s("sword")), 6);
    assert_eq!(giver.balance(), 999_950);
    assert_eq!(taker.balance(), 999_990);
}

#[test]
fn gift_of_everything_drops_the_senders_entry() {
    let mut a = ledger();
    a.purchase_asset(id(1), s("g"), s("sword"), 2).unwrap();
    a.gift_asset(id(1), id(2), s("sword"), 2).unwrap();
    assert!(a.auth_player(id(1)).unwrap().inventory().holdings().is_empty());
    assert_eq!(a.auth_player(id(2)).unwrap().inventory().holdings(), vec![(s("sword"), 2)]);
}

#[test]
fn gift_rejections_change_nothing() {
    let mut a = ledger();
    a.purchase_asset(id(1), s("g"), s("sword"), 2).unwrap();
    assert_eq!(a.gift_asset(id(1), id(2), s("sword"), 0), Err(ContractError::InvalidAmount));
    assert_eq!(a.gift_asset(id(9), id(2), s("sword"), 1), Err(ContractError::PlayerNotFound));
    assert_eq!(a.gift_asset(id(1), id(2), s("axe"), 1), Err(ContractError::AssetNotFound));
    assert_eq!(a.gift_asset(id(1), id(2), s("sword"), 3), Err(ContractError::InsufficientAssetCount));
    // the receiver is looked up after the sender's units were checked
    assert_eq!(a.gift_asset(id(1), id(9), s("sword"), 3), Err(ContractError::InsufficientAssetCount));
    assert_eq!(a.gift_asset(id(1), id(9), s("sword"), 1), Err(ContractError::PlayerNotFound));
    assert!(a.auth_player(id(9)).is_none());
    assert_eq!(a.auth_player(id(1)).unwrap().quantity(&s("sword")), 2);
    assert_eq!(a.auth_player(id(2)).unwrap().quantity(&s("sword")), 0);
}

#[test]
fn gift_receiver_overflow_changes_nothing() {
    let mut a = ledger();
    a.register_asset(s("g"), s("dust"), 0);
    a.purchase_asset(id(1), s("g"), s("dust"), 5).unwrap();
    a.purchase_asset(id(2), s("g"), s("dust"), u64::MAX).unwrap();
    assert_eq!(a.gift_asset(id(1), id(2), s("dust"), 1), Err(ContractError::ArithmeticOverflow));
    assert_eq!(a.auth_player(id(1)).unwrap().quantity(&s("dust")), 5);
    assert_eq!(a.auth_player(id(2)).unwrap().quantity(&s("dust")), u64::MAX);
}

#[test]
fn gift_to_oneself_writes_the_receiving_record_last() {
    let mut a = ledger();
    a.purchase_asset(id(1), s("g"), s("sword"), 5).unwrap();
    a.gift_asset(id(1), id(1), s("sword"), 2).unwrap();
    assert_eq!(a.auth_player(id(1)).unwrap().quantity(&s("sword")), 7);
    assert_eq!(a.gift_asset(id(1), id(1), s("sword"), 8), Err(ContractError::InsufficientAssetCount));
}

#[test]
fn exchange_credits_the_difference() {
    let mut a = ledger();
    a.register_asset(s("h"), s("shield"), 7);
    a.purchase_asset(id(1), s("g"), s("sword"), 5).unwrap();
    let before = a.auth_player(id(1)).unwrap().balance();
    let ev = a.exchange_asset(id(1), s("sword"), 3, s("shield"), 4).unwrap();
    assert_eq!(ev.account, id(1));
    assert_eq!(ev.from_asset, "sword");
    assert_eq!(ev.to_asset, "shield");
    assert_eq!(ev.from_count, 3);
    assert_eq!(ev.to_count, 4);
    assert_eq!(ev.refund, 2);
    let p = a.auth_player(id(1)).unwrap();
    assert_eq!(p.balance(), before + 2);
    assert_eq!(p.quantity(&s("sword")), 2);
    assert_eq!(p.quantity(&s("shield")), 4);
}

#[test]
fn exchange_of_equal_value_refunds_nothing() {
    let mut a = ledger();
    a.register_asset(s("h"), s("shield"), 5);
    a.purchase_asset(id(1), s("g"), s("sword"), 1).unwrap();
    let ev = a.exchange_asset(id(1), s("sword"), 1, s("shield"), 2).unwrap();
    assert_eq!(ev.refund, 0);
    let p = a.auth_player(id(1)).unwrap();
    assert_eq!(p.balance(), 999_990);
    assert_eq!(p.quantity(&s("sword")), 0);
    assert_eq!(p.quantity(&s("shield")), 2);
}

#[test]
fn exchange_requires_value_to_cover() {
    let mut a = ledger();
    a.register_asset(s("h"), s("shield"), 7);
    a.purchase_asset(id(1), s("g"), s("sword"), 5).unwrap();
    let r = a.exchange_asset(id(1), s("sword"), 2, s("shield"), 3);
    assert_eq!(r, Err(ContractError::InsufficientBalance));
    // the value is compared before the account is looked up
    let r = a.exchange_asset(id(9), s("sword"), 2, s("shield"), 3);
    assert_eq!(r, Err(ContractError::InsufficientBalance));
    let p = a.auth_player(id(1)).unwrap();
    assert_eq!(p.quantity(&s("sword")), 5);
    assert_eq!(p.quantity(&s("shield")), 0);
    assert_eq!(p.balance(), 999_950);
}

#[test]
fn exchange_rejections_in_order() {
    let mut a = ledger();
    a.register_asset(s("h"), s("shield"), 7);
    a.register_asset(s("h"), s("moon"), u128::MAX);
    a.purchase_asset(id(1), s("g"), s("sword"), 5).unwrap();
    assert_eq!(a.exchange_asset(id(1), s("axe"), 0, s("shield"), 1), Err(ContractError::InvalidAmount));
    assert_eq!(a.exchange_asset(id(1), s("sword"), 1, s("shield"), -1), Err(ContractError::InvalidAmount));
    assert_eq!(a.exchange_asset(id(1), s("sword"), i64::MIN, s("shield"), 1), Err(ContractError::InvalidAmount));
    assert_eq!(a.exchange_asset(id(1), s("axe"), 1, s("shield"), 1), Err(ContractError::AssetNotFound));
    assert_eq!(a.exchange_asset(id(1), s("sword"), 1, s("axe"), 1), Err(ContractError::AssetNotFound));
    assert_eq!(a.exchange_asset(id(1), s("moon"), 2, s("sword"), 1), Err(ContractError::ArithmeticOverflow));
    assert_eq!(a.exchange_asset(id(1), s("sword"), 1, s("moon"), 2), Err(ContractError::ArithmeticOverflow));
    assert_eq!(a.exchange_asset(id(9), s("sword"), 1, s("shield"), 1), Err(ContractError::PlayerNotFound));
    assert_eq!(a.exchange_asset(id(1), s("shield"), 2, s("sword"), 1), Err(ContractError::AssetNotFound));
    assert_eq!(a.exchange_asset(id(1), s("sword"), 6, s("shield"), 1), Err(ContractError::InsufficientAssetCount));
    let p = a.auth_player(id(1)).unwrap();
    assert_eq!(p.quantity(&s("sword")), 5);
    assert_eq!(p.balance(), 999_950);
}

#[test]
fn exchange_balance_overflow_changes_nothing() {
    let mut a = ledger();
    a.register_asset(s("h"), s("dust"), 0);
    a.register_asset(s("h"), s("moon"), u128::MAX);
    a.modify_asset(id(1), s("moon"), 1, true).unwrap();
    let r = a.exchange_asset(id(1), s("moon"), 1, s("dust"), 1);
    assert_eq!(r, Err(ContractError::ArithmeticOverflow));
    let p = a.auth_player(id(1)).unwrap();
    assert_eq!(p.quantity(&s("moon")), 1);
    assert_eq!(p.quantity(&s("dust")), 0);
    assert_eq!(p.balance(), 1_000_000);
}

#[test]
fn exchange_resolves_prices_by_game_order() {
    let mut a = Assets::new();
    a.register_asset(s("g1"), s("axe"), 1);
    a.register_asset(s("g2"), s("sword"), 5);
    a.register_asset(s("g1"), s("sword"), 7);
    a.register_asset(s("g2"), s("coin"), 1);
    a.register_player(id(1), s("alice"));
    a.modify_asset(id(1), s("sword"), 1, true).unwrap();
    // "g1" was registered first, so its price of 7 counts, not the 5 of "g2"
    let ev = a.exchange_asset(id(1), s("sword"), 1, s("coin"), 1).unwrap();
    assert_eq!(ev.refund, 6);
    assert_eq!(a.auth_player(id(1)).unwrap().balance(), 1_000_006);
}

#[test]
fn exchange_for_the_same_asset() {
    let mut a = ledger();
    a.purchase_asset(id(1), s("g"), s("sword"), 5).unwrap();
    let ev = a.exchange_asset(id(1), s("sword"), 3, s("sword"), 1).unwrap();
    assert_eq!(ev.refund, 20);
    let p = a.auth_player(id(1)).unwrap();
    assert_eq!(p.quantity(&s("sword")), 3);
    assert_eq!(p.balance(), 999_970);
}

#[test]
fn modify_adjusts_without_payment() {
    let mut a = ledger();
    let ev = a.modify_asset(id(1), s("gem"), 4, true).unwrap();
    assert_eq!(ev.account, id(1));
    assert_eq!(ev.asset, "gem");
    assert_eq!(ev.new_count, 4);
    assert!(ev.increased);
    let ev = a.modify_asset(id(1), s("gem"), 3, true).unwrap();
    assert_eq!(ev.new_count, 7);
    let ev = a.modify_asset(id(1), s("gem"), 2, false).unwrap();
    assert_eq!(ev.new_count, 5);
    assert!(!ev.increased);
    let p = a.auth_player(id(1)).unwrap();
    assert_eq!(p.quantity(&s("gem")), 5);
    assert_eq!(p.balance(), 1_000_000);
    let ev = a.modify_asset(id(1), s("gem"), 5, false).unwrap();
    assert_eq!(ev.new_count, 0);
    assert!(a.auth_player(id(1)).unwrap().inventory().holdings().is_empty());
}

#[test]
fn modify_rejections() {
    let mut a = ledger();
    a.modify_asset(id(1), s("gem"), 4, true).unwrap();
    assert_eq!(a.modify_asset(id(1), s("gem"), 0, true), Err(ContractError::InvalidAmount));
    assert_eq!(a.modify_asset(id(1), s("gem"), -3, false), Err(ContractError::InvalidAmount));
    assert_eq!(a.modify_asset(id(9), s("gem"), 0, true), Err(ContractError::InvalidAmount));
    assert_eq!(a.modify_asset(id(9), s("gem"), 1, true), Err(ContractError::PlayerNotFound));
    assert_eq!(a.modify_asset(id(1), s("gem"), 5, false), Err(ContractError::InsufficientAssetCount));
    assert_eq!(a.modify_asset(id(1), s("ore"), 1, false), Err(ContractError::InsufficientAssetCount));
    a.modify_asset(id(1), s("gem"), i64::MAX, true).unwrap();
    assert_eq!(a.auth_player(id(1)).unwrap().quantity(&s("gem")), (1u64 << 63) + 3);
    assert_eq!(a.modify_asset(id(1), s("gem"), i64::MAX, true), Err(ContractError::ArithmeticOverflow));
    assert_eq!(a.auth_player(id(1)).unwrap().quantity(&s("gem")), (1u64 << 63) + 3);
}

#[test]
fn registering_again_resets_the_account() {
    let mut a = ledger();
    a.purchase_asset(id(1), s("g"), s("sword"), 5).unwrap();
    a.purchase_asset(id(2), s("g"), s("sword"), 1).unwrap();
    a.register_player(id(1), s("alice the second"));
    let p = a.auth_player(id(1)).unwrap();
    assert_eq!(p.name(), "alice the second");
    assert_eq!(p.balance(), 1_000_000);
    assert_eq!(p.quantity(&s("sword")), 0);
    assert!(p.inventory().holdings().is_empty());
    // the other account is untouched
    let q = a.auth_player(id(2)).unwrap();
    assert_eq!(q.name(), "bob");
    assert_eq!(q.balance(), 999_990);
    assert_eq!(q.quantity(&s("sword")), 1);
}

#[test]
fn registered_asset_is_listed() {
    let mut a = Assets::new();
    let ev = a.register_asset(s("g"), s("sword"), 10);
    assert_eq!(ev.game, "g");
    assert_eq!(ev.name, "sword");
    assert_eq!(ev.price, 10);
    let list = a.assets(s("g")).unwrap();
    assert!(list.contains(&(s("sword"), 10)));
    assert_eq!(list, vec![(s("sword"), 10)]);
    assert_eq!(a.games(), vec![s("g")]);
}

#[test]
fn games_repeat_once_per_registration() {
    let mut a = Assets::new();
    a.register_asset(s("g"), s("sword"), 10);
    a.register_asset(s("h"), s("shield"), 7);
    a.register_asset(s("g"), s("sword"), 12);
    assert_eq!(a.games(), vec![s("g"), s("h"), s("g")]);
    assert_eq!(a.assets(s("g")).unwrap(), vec![(s("sword"), 10), (s("sword"), 12)]);
    assert_eq!(a.assets(s("h")).unwrap(), vec![(s("shield"), 7)]);
    assert!(a.assets(s("i")).is_none());
    assert_eq!(a.find_price(&s("g"), &s("sword")), Ok(10));
    assert_eq!(a.find_price(&s("g"), &s("shield")), Err(ContractError::AssetNotFound));
    assert_eq!(a.find_price(&s("i"), &s("sword")), Err(ContractError::GameWithoutAssets));
}

#[test]
fn accounts_differ_by_any_byte() {
    let mut a = Assets::new();
    let mut other = [1u8; 32];
    other[31] = 2;
    a.register_player(id(1), s("alice"));
    assert!(a.auth_player(AccountId { bytes: other }).is_none());
    a.register_player(AccountId { bytes: other }, s("alina"));
    assert_eq!(a.auth_player(id(1)).unwrap().name(), "alice");
    assert_eq!(a.auth_player(AccountId { bytes: other }).unwrap().name(), "alina");
}

#[test]
fn quantities_stay_positive_and_balances_hold() {
    let mut a = ledger();
    a.register_asset(s("h"), s("shield"), 7);
    a.purchase_asset(id(1), s("g"), s("sword"), 4).unwrap();
    a.gift_asset(id(1), id(2), s("sword"), 4).unwrap();
    a.exchange_asset(id(2), s("sword"), 4, s("shield"), 5).unwrap();
    a.modify_asset(id(2), s("shield"), 5, false).unwrap();
    for who in [id(1), id(2)] {
        let p = a.auth_player(who).unwrap();
        for (_, q) in p.inventory().holdings() {
            assert!(q > 0);
        }
    }
    assert!(a.auth_player(id(1)).unwrap().inventory().holdings().is_empty());
    assert!(a.auth_player(id(2)).unwrap().inventory().holdings().is_empty());
    assert_eq!(a.auth_player(id(1)).unwrap().balance(), 999_960);
    assert_eq!(a.auth_player(id(2)).unwrap().balance(), 1_000_005);
}

#[test]
fn loaded_state_behaves_like_registered_state() {
    let mut a = Assets::new();
    a.set_games(vec![s("h"), s("g")]);
    a.set_listing(s("g"), vec![(s("sword"), 10)]);
    a.set_listing(s("h"), vec![(s("sword"), 3), (s("coin"), 1)]);
    let inv = assets::inventory::Inventory::from_holdings(&vec![(s("sword"), 2)]).unwrap();
    a.set_player(id(1), assets::account::Player::from_parts(s("alice"), 100, inv));
    let ev = a.purchase_asset(id(1), s("g"), s("sword"), 3).unwrap();
    assert_eq!(ev.total_price, 30);
    let p = a.auth_player(id(1)).unwrap();
    assert_eq!(p.balance(), 70);
    assert_eq!(p.quantity(&s("sword")), 5);
    // across the catalog "h" comes first
    let ev = a.exchange_asset(id(1), s("sword"), 1, s("coin"), 2).unwrap();
    assert_eq!(ev.refund, 1);
}
