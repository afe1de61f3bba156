use smart_contract::constants::{START_DECAY_VALUE, START_MULTIPLIER_VALUE, VALUE_100_PERCENT_APY};
use smart_contract::errors::ErrorCode;
use smart_contract::pubkey::Pubkey;
use smart_contract::state::all_assets::{AllAssets, AssetInfo, Orderbook, ORDERBOOK_SIZE};
use smart_contract::instructions::{deposit, withdraw};
use smart_contract::state::lender_deposit::LenderDeposit;
use smart_contract::utility::{rescale, update_multiplier};

fn market(amount: u64) -> AllAssets {
    let asset = AssetInfo {
        mint: Pubkey::default(),
        leverage: 2_000,
        orderbook: Orderbook {
            slots: [0; ORDERBOOK_SIZE],
            looper_multiplier: [START_MULTIPLIER_VALUE; ORDERBOOK_SIZE],
            low_position_decay: [START_DECAY_VALUE; ORDERBOOK_SIZE],
        },
    };
    let mut m = AllAssets {
        base_asset: Pubkey::default(),
        size_assets: 2,
        assets: [asset, asset],
        start_apy: VALUE_100_PERCENT_APY,
        apy_tick: VALUE_100_PERCENT_APY / 100,
        amount,
        lender_multiplier: START_MULTIPLIER_VALUE,
        last_update_timestamp: 0,
        current_apy: 0,
    };
    m.assets[0].orderbook.slots[2] = 100;
    m.assets[0].orderbook.slots[6] = 50;
    m.assets[1].orderbook.slots[6] = 80;
    m.assets[1].orderbook.slots[0] = 300;
    m
}

#[test]
fn split_sums_to_the_amount_or_the_liquidity() {
    for amount in [0u64, 1, 49, 130, 131, 229, 230, 500, 529, 530, 10_000] {
        let split = market(amount).split_lenders_sol().unwrap();
        let sum: u64 = split.iter().map(|e| e.1).sum();
        assert_eq!(sum, amount.min(530));
    }
}

#[test]
fn split_grows_with_the_amount() {
    let mut previous = vec![0u64, 0];
    for amount in 0u64..600 {
        let split = market(amount).split_lenders_sol().unwrap();
        for i in 0..2 {
            assert!(split[i].1 >= previous[i]);
            previous[i] = split[i].1;
        }
    }
}

#[test]
fn split_serves_the_best_tick_first() {
    // 130 at tick 6 (asset 0 first), then 100 at tick 2, then 300 at tick 0
    assert_eq!(market(60).split_lenders_sol().unwrap(), vec![(6, 50, 50), (6, 10, 10)]);
    assert_eq!(market(200).split_lenders_sol().unwrap(), vec![(2, 120, 70), (6, 80, 80)]);
    assert_eq!(market(300).split_lenders_sol().unwrap(), vec![(2, 150, 100), (0, 150, 70)]);
}

#[test]
fn lender_delta_composes_with_the_split() {
    let m = market(130);
    let before = m.split_lenders_sol().unwrap();
    let delta = m.delta_split_lender(170, true).unwrap();
    let after = market(300).split_lenders_sol().unwrap();
    for i in 0..2 {
        assert_eq!(before[i].1 as i128 + delta[i].1, after[i].1 as i128);
        assert_eq!(delta[i].0, after[i].0);
    }
}

#[test]
fn best_offer_is_the_highest() {
    let (apy, index, liquidity) = market(0).current_best_apy().unwrap();
    assert_eq!((apy, index, liquidity), (1_060_000_000_000, 0, 50));
}

#[test]
fn no_interest_without_time_and_rescale_identity() {
    assert_eq!(update_multiplier(VALUE_100_PERCENT_APY * 3, 0, 777), Ok(777));
    assert!(update_multiplier(VALUE_100_PERCENT_APY, 1_000, 777).unwrap() >= 777);
    assert_eq!(rescale(12_345, 1_000_000, 1_000_000), Ok(12_345));
}

#[test]
fn accrual_keeps_the_books() {
    let mut m = market(300);
    let before = m;
    m.update_timestamp_and_multiplier(86_400).unwrap();
    for i in 0..2 {
        assert_eq!(m.assets[i].orderbook.slots, before.assets[i].orderbook.slots);
        assert_eq!(m.assets[i].mint.to_bytes(), before.assets[i].mint.to_bytes());
    }
    assert_eq!(m.size_assets, before.size_assets);
}

#[test]
fn lender_apy_is_a_blend_of_the_selected_ticks() {
    let mut m = market(300);
    // split(300): asset 0 pays tick 2 on 150, asset 1 pays tick 0 on 150
    m.update_timestamp_and_multiplier(0).unwrap();
    assert!(m.current_apy >= 1_000_000_000_000 && m.current_apy <= 1_020_000_000_000);
    assert_eq!(m.current_apy, 1_010_000_000_000);
}

#[test]
fn deposits_never_withdraw_and_withdrawals_never_deposit() {
    for amount in [1u64, 50, 100, 230, 400, 1_000] {
        let mut m = market(130);
        let mut lender = LenderDeposit { lender: Pubkey::default(), amount: 0, last_multiplier: 0, bump: 0 };
        let (amounts, _) = deposit::handler(&mut m, &mut lender, Pubkey::default(), amount, 0, 0).unwrap();
        let deposited: u64 = amounts.iter().sum();
        // what the books take of the new amount
        assert_eq!(deposited, (130 + amount).min(530) - 130);
        let w = withdraw::handler(&mut m, &mut lender, Pubkey::default(), amount, 0).unwrap();
        let withdrawn: u64 = w.amounts.iter().sum();
        assert_eq!(withdrawn, deposited);
        assert!(w.close_position);
    }
}

#[test]
fn split_read_on_the_raw_slots() {
    let m = market(200);
    // ticks 6 (50 + 80) are taken whole, then 70 of the 100 at tick 2 of asset 0
    let split = m.split_lenders_sol().unwrap();
    assert_eq!(split, vec![(2, 120, 70), (6, 80, 80)]);
    // asset 0: what it takes at its tick plus its whole liquidity above
    let above: u64 = m.assets[0].orderbook.slots[3..].iter().sum();
    assert_eq!(split[0].1, split[0].2 + above);
    assert!(split[0].2 <= m.assets[0].orderbook.slots[2]);
    // asset 1 has liquidity at tick 6, above the tick of asset 0: it is taken whole
    assert_eq!(split[1].0, 6);
    assert_eq!(split[1].2, m.assets[1].orderbook.slots[6]);
}

#[test]
fn accrual_at_the_same_time_twice_is_accrual_once() {
    let mut m = market(300);
    m.current_apy = VALUE_100_PERCENT_APY;
    m.update_timestamp_and_multiplier(86_400).unwrap();
    let once = m;
    m.update_timestamp_and_multiplier(86_400).unwrap();
    assert_eq!(m.amount, once.amount);
    assert_eq!(m.lender_multiplier, once.lender_multiplier);
    assert_eq!(m.last_update_timestamp, once.last_update_timestamp);
    assert_eq!(m.current_apy, once.current_apy);
    for i in 0..2 {
        assert_eq!(m.assets[i].orderbook.looper_multiplier, once.assets[i].orderbook.looper_multiplier);
        assert_eq!(m.assets[i].orderbook.slots, once.assets[i].orderbook.slots);
    }
}

#[test]
fn accrual_never_shrinks_and_pays_the_apy_in_force() {
    let mut m = market(300);
    m.current_apy = VALUE_100_PERCENT_APY;
    let before = m;
    m.update_timestamp_and_multiplier(31_536_000).unwrap();
    assert_eq!(m.amount, update_multiplier(VALUE_100_PERCENT_APY, 31_536_000, 300).unwrap());
    assert_eq!(m.amount, 600);
    assert_eq!(
        m.lender_multiplier,
        update_multiplier(VALUE_100_PERCENT_APY, 31_536_000, START_MULTIPLIER_VALUE).unwrap()
    );
    assert_eq!(m.last_update_timestamp, 31_536_000);
    for i in 0..2 {
        for j in 0..ORDERBOOK_SIZE {
            assert!(m.assets[i].orderbook.looper_multiplier[j] >= before.assets[i].orderbook.looper_multiplier[j]);
        }
    }
    // split(600) takes all 530 of the books: asset 0 pays tick 2 (102%) and
    // asset 1 tick 0 (100%), on every tick from its own up
    assert_eq!(m.assets[0].orderbook.looper_multiplier[9], 2_020_000_000_000);
    assert_eq!(m.assets[0].orderbook.looper_multiplier[1], START_MULTIPLIER_VALUE);
    assert_eq!(m.assets[1].orderbook.looper_multiplier[6], 2_000_000_000_000);
}

#[test]
fn no_liquidity_exactly_when_the_books_are_empty() {
    let mut m = market(0);
    assert!(m.current_best_apy().is_ok());
    for i in 0..2 {
        m.assets[i].orderbook.slots = [0; ORDERBOOK_SIZE];
    }
    assert_eq!(m.current_best_apy(), Err(ErrorCode::NoLiquidityAvailable));
    // an unlisted asset's liquidity does not count
    m.size_assets = 1;
    m.assets[1].orderbook.slots[4] = 9;
    assert_eq!(m.current_best_apy(), Err(ErrorCode::NoLiquidityAvailable));
    // one slot of a listed asset is enough
    m.assets[0].orderbook.slots[0] = 1;
    assert_eq!(m.current_best_apy(), Ok((VALUE_100_PERCENT_APY, 0, 1)));
}
