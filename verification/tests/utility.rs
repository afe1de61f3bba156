use smart_contract::constants::{SCALE_ORACLE_VALUE, START_DECAY_VALUE, START_MULTIPLIER_VALUE, VALUE_100_PERCENT_APY};
use smart_contract::errors::ErrorCode;
use smart_contract::pubkey::Pubkey;
use smart_contract::state::all_assets::{AllAssets, AssetInfo, Orderbook, ORDERBOOK_SIZE};
use smart_contract::state::lender_deposit::LenderDeposit;
use smart_contract::state::looper_deposit::LooperDeposit;
use smart_contract::utility::{
    check_transfer_accounts, check_transfer_lengths, delta_split_extraction, oracle_quote_price, rescale, truncate_to_u64,
    update_multiplier,
};

fn key(b: u8) -> Pubkey {
    Pubkey::new_from_array([b; 32])
}

fn market_with_mints(a: u8, b: u8) -> AllAssets {
    let asset = |m: u8| AssetInfo {
        mint: key(m),
        leverage: 2_000,
        orderbook: Orderbook {
            slots: [0; ORDERBOOK_SIZE],
            looper_multiplier: [START_MULTIPLIER_VALUE; ORDERBOOK_SIZE],
            low_position_decay: [START_DECAY_VALUE; ORDERBOOK_SIZE],
        },
    };
    AllAssets {
        base_asset: key(9),
        size_assets: 2,
        assets: [asset(a), asset(b)],
        start_apy: VALUE_100_PERCENT_APY,
        apy_tick: VALUE_100_PERCENT_APY / 100,
        amount: 0,
        lender_multiplier: START_MULTIPLIER_VALUE,
        last_update_timestamp: 0,
        current_apy: 0,
    }
}

#[test]
fn update_multiplier_one_year_at_full_apy_doubles() {
    assert_eq!(
        update_multiplier(VALUE_100_PERCENT_APY, 31_536_000, START_MULTIPLIER_VALUE),
        Ok(2 * START_MULTIPLIER_VALUE)
    );
}

#[test]
fn update_multiplier_exact_interest_is_rounded_down() {
    // 10% over one day on 1_000_000: 1_000_000 * 0.1 / 365 = 273.97...
    assert_eq!(update_multiplier(VALUE_100_PERCENT_APY / 10, 86_400, 1_000_000), Ok(1_000_273));
}

#[test]
fn update_multiplier_without_time_is_unchanged() {
    assert_eq!(update_multiplier(VALUE_100_PERCENT_APY, 0, 12_345), Ok(12_345));
}

#[test]
fn update_multiplier_overflow_is_refused() {
    assert_eq!(update_multiplier(u64::MAX, i64::MAX, u64::MAX), Err(ErrorCode::NumErr));
    // the interest fits but the sum does not
    assert_eq!(update_multiplier(VALUE_100_PERCENT_APY, 1, u64::MAX - 10), Err(ErrorCode::NumErr));
}

#[test]
fn update_multiplier_negative_time() {
    // a negative time wraps around to a huge duration: refused unless nothing accrues
    assert_eq!(update_multiplier(VALUE_100_PERCENT_APY, -1, 1_000), Err(ErrorCode::NumErr));
    assert_eq!(update_multiplier(0, -1, 1_000), Ok(1_000));
    assert_eq!(update_multiplier(VALUE_100_PERCENT_APY, -1, 0), Ok(0));
}

#[test]
fn rescale_values() {
    assert_eq!(rescale(1_000, 20, 10), Ok(2_000));
    assert_eq!(rescale(1_000, 3, 7), Ok(428));
    assert_eq!(rescale(1_000, 3, 0), Err(ErrorCode::NumErr));
    assert_eq!(rescale(u64::MAX, u128::MAX, 1), Err(ErrorCode::NumErr));
    // the quotient is cast back to u64
    assert_eq!(rescale(u64::MAX, 4, 1), Ok(u64::MAX - 3));
    assert_eq!(truncate_to_u64((1u128 << 64) + 7), 7);
}

#[test]
fn lender_deposit_adjusts_to_multiplier() {
    let mut d = LenderDeposit { lender: key(1), amount: 1_000, last_multiplier: 10, bump: 3 };
    d.adjust_for_lender_multiplier(25).unwrap();
    assert_eq!(d.amount, 2_500);
    assert_eq!(d.last_multiplier, 25);
    assert_eq!(d.bump, 3);
    let mut fresh = LenderDeposit { lender: key(1), amount: 1_000, last_multiplier: 0, bump: 0 };
    assert_eq!(fresh.adjust_for_lender_multiplier(25), Err(ErrorCode::NumErr));
    assert_eq!(fresh.amount, 1_000);
    assert_eq!(fresh.last_multiplier, 0);
}

#[test]
fn looper_deposit_adjusts_to_multiplier_and_decay() {
    let mut d = LooperDeposit {
        looper: key(1),
        asset_index: 1,
        slot_index: 4,
        amount: 1_000,
        last_multiplier: 100,
        last_decay: 1_000,
        bump: 0,
    };
    d.adjust_for_looper_multiplier(150).unwrap();
    assert_eq!(d.amount, 1_500);
    assert_eq!(d.last_multiplier, 150);
    d.adjust_for_decay(500).unwrap();
    assert_eq!(d.amount, 750);
    assert_eq!(d.last_decay, 500);
    d.last_decay = 0;
    assert_eq!(d.adjust_for_decay(10), Err(ErrorCode::NumErr));
    assert_eq!(d.amount, 750);
}

#[test]
fn oracle_quotes_at_par() {
    assert_eq!(oracle_quote_price(key(5)), Ok(SCALE_ORACLE_VALUE));
}

#[test]
fn transfer_account_checks_in_order() {
    let (mint, payer, vault) = (key(1), key(2), key(3));
    assert_eq!(check_transfer_accounts(&mint, &mint, &payer, &payer, &vault, &vault), Ok(()));
    assert_eq!(
        check_transfer_accounts(&key(7), &mint, &key(7), &payer, &key(7), &vault),
        Err(ErrorCode::MintMismatch)
    );
    assert_eq!(
        check_transfer_accounts(&mint, &mint, &key(7), &payer, &key(7), &vault),
        Err(ErrorCode::OwnerMismatch)
    );
    assert_eq!(
        check_transfer_accounts(&mint, &mint, &payer, &payer, &key(7), &vault),
        Err(ErrorCode::VaultOwnerMismatch)
    );
}

#[test]
fn extraction_splits_deposits_and_withdrawals() {
    let market = market_with_mints(1, 2);
    let ((dep_amounts, dep_mints), (wd_amounts, wd_mints)) =
        delta_split_extraction(&vec![(3, -40), (5, 70)], &market);
    assert_eq!(dep_amounts, vec![70]);
    assert_eq!(dep_mints.iter().map(|k| k.to_bytes()).collect::<Vec<_>>(), vec![[2u8; 32]]);
    assert_eq!(wd_amounts, vec![40]);
    assert_eq!(wd_mints.iter().map(|k| k.to_bytes()).collect::<Vec<_>>(), vec![[1u8; 32]]);
    let ((dep_amounts, _), (wd_amounts, _)) = delta_split_extraction(&vec![(0, 0), (0, 0)], &market);
    assert!(dep_amounts.is_empty());
    assert!(wd_amounts.is_empty());
}

#[test]
fn pubkey_equality() {
    assert!(key(4).equals(&key(4)));
    assert!(!key(4).equals(&key(5)));
    let mut bytes = [4u8; 32];
    bytes[31] = 0;
    assert!(!key(4).equals(&Pubkey::new_from_array(bytes)));
    assert_eq!(Pubkey::default().to_bytes(), [0u8; 32]);
}

#[test]
fn transfer_lengths_must_match() {
    assert_eq!(check_transfer_lengths(0, 0, 0), Ok(()));
    assert_eq!(check_transfer_lengths(2, 2, 6), Ok(()));
    // one set of three accounts per amount
    assert_eq!(check_transfer_lengths(2, 2, 3), Err(ErrorCode::InvalidInputLength));
    assert_eq!(check_transfer_lengths(2, 2, 7), Err(ErrorCode::InvalidInputLength));
    assert_eq!(check_transfer_lengths(1, 1, 5), Err(ErrorCode::InvalidInputLength));
    // as many mints as amounts
    assert_eq!(check_transfer_lengths(2, 1, 6), Err(ErrorCode::InvalidInputLength));
}
