use vstd::prelude::*;
use crate::constants::MIN_DEPOSIT;
use crate::errors::ErrorCode;
use crate::pubkey::Pubkey;
use crate::state::all_assets::{AllAssets, ORDERBOOK_SIZE};
use crate::state::looper_deposit::LooperDeposit;
use crate::state::model::MarketModel;
use crate::utility::{delta_split_extraction, deposit_part, withdraw_part};

verus! {

/// The transfers a change of the books asks for: the amounts to move into
/// the vault and out of it, each with its mint.
#[derive(Debug)]
pub struct Rebalance {
    pub deposit_amounts: Vec<u64>,
    pub deposit_mints: Vec<Pubkey>,
    pub withdraw_amounts: Vec<u64>,
    pub withdraw_mints: Vec<Pubkey>,
}

/// The outcome of a looper bidding `amount` at tick `slot_index` of asset
/// `asset_index`: the market accrues interest up to `now`; the bid must name a
/// listed asset and a tick of the book and exceed `MIN_DEPOSIT`; the tick's
/// liquidity grows by `amount`, and the lenders' funds move as the difference
/// between the split over the new books and the split over the current ones
/// (positive parts deposited, negative parts withdrawn, per mint); the new
/// position records the tick's multiplier and decay.
pub open spec fn place_bid_outcome(
    m: MarketModel,
    payer: Pubkey,
    asset_index: usize,
    slot_index: usize,
    amount: u64,
    now: i64,
    bump: u8,
) -> Result<(MarketModel, LooperDeposit, Seq<u64>, Seq<Pubkey>, Seq<u64>, Seq<Pubkey>), ErrorCode> {
    match m.accrue(now) {
        Err(e) => Err(e),
        Ok(m1) => if asset_index >= m1.size_assets {
            Err(ErrorCode::InvalidAssetIndex)
        } else if slot_index >= ORDERBOOK_SIZE {
            Err(ErrorCode::InvalidSlotIndex)
        } else if amount <= MIN_DEPOSIT {
            Err(ErrorCode::LuserEstUnRat)
        } else {
            match m1.looper_delta(asset_index as int, slot_index as int, amount, true) {
                Err(e) => Err(e),
                Ok(d) => {
                    let i = asset_index as int;
                    let j = slot_index as int;
                    let m2 = m1.with_slot(i, j, (m1.assets[i].slots[j] + amount) as u64);
                    let n = m2.size_assets as int;
                    Ok(
                        (
                            m2,
                            LooperDeposit {
                                looper: payer,
                                asset_index: asset_index as u64,
                                slot_index: slot_index as u64,
                                amount,
                                last_multiplier: m2.assets[i].looper_multiplier[j],
                                last_decay: m2.assets[i].low_position_decay[j],
                                bump,
                            },
                            deposit_part(d, m2, n).0,
                            deposit_part(d, m2, n).1,
                            withdraw_part(d, m2, n).0,
                            withdraw_part(d, m2, n).1,
                        ),
                    )
                },
            }
        },
    }
}

/// A looper bids `amount` at tick `slot_index` of asset `asset_index`; returns
/// the new position and the transfers the bid asks for.
pub fn handler(
    all_assets: &mut AllAssets,
    payer: Pubkey,
    asset_index: usize,
    slot_index: usize,
    amount: u64,
    current_timestamp: i64,
    bump: u8,
) -> (r: Result<(LooperDeposit, Rebalance), ErrorCode>)
    requires
        old(all_assets)@.accrual_defined(current_timestamp),
    ensures
        match place_bid_outcome(
            old(all_assets)@,
            payer,
            asset_index,
            slot_index,
            amount,
            current_timestamp,
            bump,
        ) {
            Ok((m, position, dep_amounts, dep_mints, wd_amounts, wd_mints)) => {
                &&& r matches Ok((p, t)) && p == position && t.deposit_amounts@ == dep_amounts
                    && t.deposit_mints@ == dep_mints && t.withdraw_amounts@ == wd_amounts
                    && t.withdraw_mints@ == wd_mints
                &&& final(all_assets)@ == m
            },
            Err(e) => r matches Err(x) && x == e && *final(all_assets) == *old(all_assets),
        },
{
    let mut market = *all_assets;
    market.update_timestamp_and_multiplier(current_timestamp)?;
    if !(asset_index < market.size_assets as usize) {
        return Err(ErrorCode::InvalidAssetIndex);
    }
    if !(slot_index < ORDERBOOK_SIZE) {
        return Err(ErrorCode::InvalidSlotIndex);
    }
    if !(amount > MIN_DEPOSIT) {
        return Err(ErrorCode::LuserEstUnRat);
    }
    let delta_split = market.delta_split_looper(asset_index, slot_index, amount, true)?;
    let new_liquidity = match market.assets[asset_index].orderbook.slots[slot_index].checked_add(amount) {
        Some(v) => v,
        None => {
            return Err(ErrorCode::NumErr);
        },
    };
    let ghost accrued = market@;
    market.assets[asset_index].orderbook.slots[slot_index] = new_liquidity;
    assert(market@ =~~= accrued.with_slot(asset_index as int, slot_index as int, new_liquidity));
    let ((deposit_amounts, deposit_mints), (withdraw_amounts, withdraw_mints)) =
        delta_split_extraction(&delta_split, &market);
    let position = LooperDeposit {
        looper: payer,
        asset_index: asset_index as u64,
        slot_index: slot_index as u64,
        amount,
        last_multiplier: market.assets[asset_index].orderbook.looper_multiplier[slot_index],
        last_decay: market.assets[asset_index].orderbook.low_position_decay[slot_index],
        bump,
    };
    *all_assets = market;
    Ok((position, Rebalance { deposit_amounts, deposit_mints, withdraw_amounts, withdraw_mints }))
}

} // verus!
