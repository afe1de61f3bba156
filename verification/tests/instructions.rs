use smart_contract::constants::{START_DECAY_VALUE, START_MULTIPLIER_VALUE, VALUE_100_PERCENT_APY};
use smart_contract::errors::ErrorCode;
use smart_contract::instructions::{add_asset, deposit, initialize, place_bid, remove_bid, withdraw};
use smart_contract::pubkey::Pubkey;
use smart_contract::state::all_assets::{AllAssets, ORDERBOOK_SIZE};
use smart_contract::state::lender_deposit::LenderDeposit;
use smart_contract::state::looper_deposit::LooperDeposit;

fn key(b: u8) -> Pubkey {
    Pubkey::new_from_array([b; 32])
}

fn bytes(keys: &[Pubkey]) -> Vec<[u8; 32]> {
    keys.iter().map(|k| k.to_bytes()).collect()
}

/// A market with two listed assets (mints 1 and 2), a book on asset 0 of
/// [500, 400, 100, 0, ...], and 500 lent.
fn market() -> AllAssets {
    let mut m = initialize::handler(key(9), VALUE_100_PERCENT_APY, VALUE_100_PERCENT_APY / 100, 0);
    add_asset::handler(&mut m, key(1), 2_000).unwrap();
    add_asset::handler(&mut m, key(2), 3_000).unwrap();
    m.assets[0].orderbook.slots[0] = 500;
    m.assets[0].orderbook.slots[1] = 400;
    m.assets[0].orderbook.slots[2] = 100;
    m.amount = 500;
    m
}

fn fresh_lender() -> LenderDeposit {
    LenderDeposit { lender: Pubkey::default(), amount: 0, last_multiplier: 0, bump: 0 }
}

#[test]
fn initialize_creates_an_empty_market() {
    let m = initialize::handler(key(9), 7, 3, 1_234);
    assert_eq!(m.base_asset.to_bytes(), [9u8; 32]);
    assert_eq!(m.size_assets, 0);
    assert_eq!(m.start_apy, 7);
    assert_eq!(m.apy_tick, 3);
    assert_eq!(m.amount, 0);
    assert_eq!(m.lender_multiplier, START_MULTIPLIER_VALUE);
    assert_eq!(m.last_update_timestamp, 1_234);
    assert_eq!(m.current_apy, 0);
    for a in m.assets.iter() {
        assert_eq!(a.mint.to_bytes(), [0u8; 32]);
        assert_eq!(a.leverage, 0);
        assert_eq!(a.orderbook.slots, [0; ORDERBOOK_SIZE]);
    }
}

#[test]
fn add_asset_lists_assets_until_full() {
    let mut m = initialize::handler(key(9), 7, 3, 0);
    assert_eq!(add_asset::handler(&mut m, key(1), 1_000), Err(ErrorCode::InvalidLeverage));
    assert_eq!(m.size_assets, 0);
    add_asset::handler(&mut m, key(1), 1_001).unwrap();
    assert_eq!(m.size_assets, 1);
    assert_eq!(m.assets[0].mint.to_bytes(), [1u8; 32]);
    assert_eq!(m.assets[0].leverage, 1_001);
    assert_eq!(m.assets[0].orderbook.slots, [0; ORDERBOOK_SIZE]);
    assert_eq!(m.assets[0].orderbook.looper_multiplier, [START_MULTIPLIER_VALUE; ORDERBOOK_SIZE]);
    assert_eq!(m.assets[0].orderbook.low_position_decay, [START_DECAY_VALUE; ORDERBOOK_SIZE]);
    assert_eq!(add_asset::handler(&mut m, key(1), 5_000), Err(ErrorCode::AssetAlreadyInitialized));
    assert_eq!(m.size_assets, 1);
    add_asset::handler(&mut m, key(2), 5_000).unwrap();
    assert_eq!(m.size_assets, 2);
    assert_eq!(add_asset::handler(&mut m, key(3), 5_000), Err(ErrorCode::AllAssetsIsFull));
    // the leverage is checked first
    assert_eq!(add_asset::handler(&mut m, key(3), 10), Err(ErrorCode::InvalidLeverage));
}

#[test]
fn deposit_of_nothing_is_refused() {
    let mut m = market();
    let mut lender = fresh_lender();
    assert_eq!(deposit::handler(&mut m, &mut lender, key(5), 0, 0, 1).unwrap_err(), ErrorCode::LuserEstUnRat);
    assert_eq!(m.amount, 500);
    assert_eq!(lender.amount, 0);
}

#[test]
fn deposit_follows_the_split() {
    let mut m = market();
    let mut lender = fresh_lender();
    let (amounts, mints) = deposit::handler(&mut m, &mut lender, key(5), 300, 0, 7).unwrap();
    // split(500) = 400 at tick 1 + 100 at tick 2; split(800) also takes 300 at tick 0
    assert_eq!(amounts, vec![300]);
    assert_eq!(bytes(&mints), vec![[1u8; 32]]);
    assert_eq!(m.amount, 800);
    assert_eq!(m.current_apy, 1_010_000_000_000);
    assert_eq!(lender.lender.to_bytes(), [5u8; 32]);
    assert_eq!(lender.amount, 300);
    assert_eq!(lender.last_multiplier, START_MULTIPLIER_VALUE);
    assert_eq!(lender.bump, 7);

    // One year later, the lenders' amount has earned the current APY, and the
    // position is brought up to date before the new deposit is added.
    let (amounts, mints) = deposit::handler(&mut m, &mut lender, key(5), 100, 31_536_000, 7).unwrap();
    assert_eq!(m.amount, 1_708);
    assert_eq!(m.lender_multiplier, 2_010_000_000_000);
    // the books hold 1000 only: nothing more is deployed
    assert!(amounts.is_empty());
    assert!(mints.is_empty());
    assert_eq!(lender.amount, 703);
    assert_eq!(lender.last_multiplier, 2_010_000_000_000);
    // the split reaches tick 0 of asset 0: every tick of the asset earns its 100%
    for j in 0..ORDERBOOK_SIZE {
        assert_eq!(m.assets[0].orderbook.looper_multiplier[j], 2_000_000_000_000);
    }
    assert_eq!(m.current_apy, VALUE_100_PERCENT_APY);
}

#[test]
fn withdraw_checks_the_lender_and_the_pool() {
    let mut m = market();
    let mut lender = fresh_lender();
    deposit::handler(&mut m, &mut lender, key(5), 300, 0, 7).unwrap();
    assert_eq!(withdraw::handler(&mut m, &mut lender, key(6), 100, 0).unwrap_err(), ErrorCode::OnlyOriginalLender);
    assert_eq!(m.amount, 800);
    assert_eq!(lender.amount, 300);
    // a position worth more than the lenders' amount cannot be withdrawn whole
    lender.amount = 900;
    assert_eq!(withdraw::handler(&mut m, &mut lender, key(5), 1_000, 0).unwrap_err(), ErrorCode::NumErr);
    assert_eq!(m.amount, 800);
    assert_eq!(lender.amount, 900);
    assert_eq!(m.assets[0].orderbook.low_position_decay[0], START_DECAY_VALUE);
}

#[test]
fn withdraw_of_more_than_the_position_takes_it_all() {
    let mut m = market();
    let mut lender = fresh_lender();
    deposit::handler(&mut m, &mut lender, key(5), 300, 0, 7).unwrap();
    // asking more than the position, even more than the lenders' amount,
    // withdraws the whole position
    let w = withdraw::handler(&mut m, &mut lender, key(5), 1_000, 0).unwrap();
    assert_eq!(w.amounts, vec![300]);
    assert_eq!(bytes(&w.mints), vec![[1u8; 32]]);
    assert!(w.close_position);
    assert_eq!(lender.amount, 0);
    assert_eq!(m.amount, 500);
}

#[test]
fn withdraw_follows_the_split_and_clamps_to_the_position() {
    let mut m = market();
    let mut lender = fresh_lender();
    deposit::handler(&mut m, &mut lender, key(5), 300, 0, 7).unwrap();
    let w = withdraw::handler(&mut m, &mut lender, key(5), 100, 0).unwrap();
    assert_eq!(w.amounts, vec![100]);
    assert_eq!(bytes(&w.mints), vec![[1u8; 32]]);
    assert!(!w.close_position);
    assert_eq!(m.amount, 700);
    assert_eq!(lender.amount, 200);
    // 300 of the 500 at tick 0 were used
    assert_eq!(m.assets[0].orderbook.low_position_decay[0], 600_000_000_000_000);

    let w = withdraw::handler(&mut m, &mut lender, key(5), 500, 0).unwrap();
    // only the 200 the position holds are withdrawn, from the books (split(700)
    // to split(500)) and from the lenders' amount
    assert_eq!(w.amounts, vec![200]);
    assert!(w.close_position);
    assert_eq!(lender.amount, 0);
    assert_eq!(m.amount, 500);
}

#[test]
fn place_bid_moves_the_lenders_funds_to_the_better_bid() {
    let mut m = market();
    let (position, transfers) = place_bid::handler(&mut m, key(5), 1, 3, 1_000_000, 0, 4).unwrap();
    assert_eq!(m.assets[1].orderbook.slots[3], 1_000_000);
    assert_eq!(transfers.deposit_amounts, vec![500]);
    assert_eq!(bytes(&transfers.deposit_mints), vec![[2u8; 32]]);
    assert_eq!(transfers.withdraw_amounts, vec![500]);
    assert_eq!(bytes(&transfers.withdraw_mints), vec![[1u8; 32]]);
    assert_eq!(position.looper.to_bytes(), [5u8; 32]);
    assert_eq!(position.asset_index, 1);
    assert_eq!(position.slot_index, 3);
    assert_eq!(position.amount, 1_000_000);
    assert_eq!(position.last_multiplier, START_MULTIPLIER_VALUE);
    assert_eq!(position.last_decay, START_DECAY_VALUE);
    assert_eq!(position.bump, 4);
    assert_eq!(m.current_apy, 1_010_000_000_000);
}

#[test]
fn place_bid_refusals() {
    let mut m = market();
    assert_eq!(place_bid::handler(&mut m, key(5), 2, 3, 1_000_000, 0, 4).unwrap_err(), ErrorCode::InvalidAssetIndex);
    assert_eq!(place_bid::handler(&mut m, key(5), 1, 10, 1_000_000, 0, 4).unwrap_err(), ErrorCode::InvalidSlotIndex);
    assert_eq!(place_bid::handler(&mut m, key(5), 1, 3, 500_000, 0, 4).unwrap_err(), ErrorCode::LuserEstUnRat);
    m.assets[1].orderbook.slots[3] = u64::MAX;
    assert_eq!(place_bid::handler(&mut m, key(5), 1, 3, 500_001, 0, 4).unwrap_err(), ErrorCode::NumErr);
    // refused instructions change nothing
    assert_eq!(m.current_apy, 0);
    assert_eq!(m.assets[1].orderbook.slots[3], u64::MAX);
}

#[test]
fn remove_bid_returns_the_used_share() {
    let mut m = market();
    let (position, _) = place_bid::handler(&mut m, key(5), 1, 3, 1_000_000, 0, 4).unwrap();
    let (amounts, mints) = remove_bid::handler(&mut m, &position, 1, 3, 0).unwrap();
    // lenders use 500 of the 1_000_000 bid: the decay shrinks the position to 500
    assert_eq!(m.assets[1].orderbook.low_position_decay[3], 500_000_000_000);
    assert_eq!(m.assets[1].orderbook.slots[3], 999_500);
    assert!(amounts.is_empty());
    assert!(mints.is_empty());
    assert_eq!(m.current_apy, 1_030_000_000_000);
}

#[test]
fn remove_bid_refused_when_funds_must_move_in() {
    let mut m = market();
    m.assets[1].orderbook.slots[3] = 300;
    let position = LooperDeposit {
        looper: key(5),
        asset_index: 1,
        slot_index: 3,
        amount: 300,
        last_multiplier: START_MULTIPLIER_VALUE,
        last_decay: START_DECAY_VALUE,
        bump: 0,
    };
    let before = m;
    assert_eq!(
        remove_bid::handler(&mut m, &position, 1, 3, 0).unwrap_err(),
        ErrorCode::ShouldBeNoDepositAmountsInRemoveBid
    );
    assert_eq!(m.assets[1].orderbook.slots[3], 300);
    assert_eq!(m.assets[0].orderbook.low_position_decay, before.assets[0].orderbook.low_position_decay);
    assert_eq!(m.current_apy, before.current_apy);
}

#[test]
fn remove_bid_of_an_unlisted_asset() {
    let mut m = market();
    m.size_assets = 1;
    let position = LooperDeposit {
        looper: key(5),
        asset_index: 1,
        slot_index: 3,
        amount: 10,
        last_multiplier: START_MULTIPLIER_VALUE,
        last_decay: START_DECAY_VALUE,
        bump: 0,
    };
    assert_eq!(remove_bid::handler(&mut m, &position, 1, 3, 0).unwrap_err(), ErrorCode::InvalidAssetIndex);
}

#[test]
fn remove_bid_checks_the_indices_first() {
    let mut m = market();
    let position = LooperDeposit {
        looper: key(5),
        asset_index: 1,
        slot_index: 3,
        amount: 10,
        last_multiplier: 0,
        last_decay: 0,
        bump: 0,
    };
    let before = m;
    // the indices are refused before the position is brought up to date (which
    // would fail here on its zero multiplier)
    assert_eq!(remove_bid::handler(&mut m, &position, 2, 3, 0).unwrap_err(), ErrorCode::InvalidAssetIndex);
    assert_eq!(remove_bid::handler(&mut m, &position, usize::MAX, 3, 0).unwrap_err(), ErrorCode::InvalidAssetIndex);
    assert_eq!(remove_bid::handler(&mut m, &position, 1, 10, 0).unwrap_err(), ErrorCode::InvalidSlotIndex);
    assert_eq!(remove_bid::handler(&mut m, &position, 1, usize::MAX, 0).unwrap_err(), ErrorCode::InvalidSlotIndex);
    assert_eq!(remove_bid::handler(&mut m, &position, 1, 3, 0).unwrap_err(), ErrorCode::NumErr);
    assert_eq!(m.assets[1].orderbook.slots, before.assets[1].orderbook.slots);
    assert_eq!(m.assets[0].orderbook.low_position_decay, before.assets[0].orderbook.low_position_decay);
}
