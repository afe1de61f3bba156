use vstd::prelude::*;
use crate::errors::ErrorCode;
use crate::pubkey::Pubkey;
use crate::state::all_assets::{AllAssets, ORDERBOOK_SIZE};
use crate::state::looper_deposit::LooperDeposit;
use crate::state::model::MarketModel;
use crate::utility::{delta_split_extraction, deposit_part, spec_rescale, withdraw_part};

verus! {

/// The outcome of a looper removing its position on tick `slot_index` of
/// asset `asset_index`: the market accrues interest up to `now`; the position
/// is brought up to date with the tick's multiplier, then with its decay; the
/// tick's liquidity shrinks by the position's amount, and the lenders' funds
/// move as the difference between the split over the new books and the split
/// over the current ones; the negative parts are the transfers to the looper,
/// per mint. Refused for an unlisted asset or a tick outside the book, when
/// accrual or an update overflows, or when the split asks for a deposit. The
/// indices are checked right after accrual and before the position is brought
/// up to date, so an invalid index is always answered with its own error,
/// whatever the position holds.
pub open spec fn remove_bid_outcome(
    m: MarketModel,
    position: LooperDeposit,
    asset_index: usize,
    slot_index: usize,
    now: i64,
) -> Result<(MarketModel, Seq<u64>, Seq<Pubkey>), ErrorCode> {
    match m.accrue(now) {
        Err(e) => Err(e),
        Ok(m1) => if asset_index >= m1.size_assets {
            Err(ErrorCode::InvalidAssetIndex)
        } else if slot_index >= ORDERBOOK_SIZE {
            Err(ErrorCode::InvalidSlotIndex)
        } else {
            let i = asset_index as int;
            let j = slot_index as int;
            match spec_rescale(
                position.amount,
                m1.assets[i].looper_multiplier[j] as u128,
                position.last_multiplier,
            ) {
                Err(e) => Err(e),
                Ok(grown) => match spec_rescale(grown, m1.assets[i].low_position_decay[j] as u128, position.last_decay) {
                    Err(e) => Err(e),
                    Ok(amount) => match m1.looper_delta(i, j, amount, false) {
                        Err(e) => Err(e),
                        Ok(d) => {
                            let m2 = m1.with_slot(i, j, (m1.assets[i].slots[j] - amount) as u64);
                            let n = m2.size_assets as int;
                            if deposit_part(d, m2, n).0.len() > 0 {
                                Err(ErrorCode::ShouldBeNoDepositAmountsInRemoveBid)
                            } else {
                                Ok((m2, withdraw_part(d, m2, n).0, withdraw_part(d, m2, n).1))
                            }
                        },
                    },
                },
            }
        },
    }
}

/// A looper removes its position on tick `slot_index` of asset `asset_index`;
/// returns the amounts to transfer to the looper with their mints.
pub fn handler(
    all_assets: &mut AllAssets,
    looper_deposit: &LooperDeposit,
    asset_index: usize,
    slot_index: usize,
    current_timestamp: i64,
) -> (r: Result<(Vec<u64>, Vec<Pubkey>), ErrorCode>)
    requires
        old(all_assets)@.accrual_defined(current_timestamp),
    ensures
        match remove_bid_outcome(old(all_assets)@, *looper_deposit, asset_index, slot_index, current_timestamp) {
            Ok((m, amounts, mints)) => {
                &&& r matches Ok((a, ms)) && a@ == amounts && ms@ == mints
                &&& final(all_assets)@ == m
            },
            Err(e) => r matches Err(x) && x == e && *final(all_assets) == *old(all_assets),
        },
{
    let mut market = *all_assets;
    market.update_timestamp_and_multiplier(current_timestamp)?;
    if !(asset_index < market.size_assets as usize) {
        return Err(ErrorCode::InvalidAssetIndex);
    }
    if !(slot_index < ORDERBOOK_SIZE) {
        return Err(ErrorCode::InvalidSlotIndex);
    }
    let mut position = *looper_deposit;
    position.adjust_for_looper_multiplier(
        market.assets[asset_index].orderbook.looper_multiplier[slot_index] as u128,
    )?;
    position.adjust_for_decay(market.assets[asset_index].orderbook.low_position_decay[slot_index] as u128)?;
    let amount = position.amount;
    let delta_split = market.delta_split_looper(asset_index, slot_index, amount, false)?;
    let new_liquidity = match market.assets[asset_index].orderbook.slots[slot_index].checked_sub(amount) {
        Some(v) => v,
        None => {
            return Err(ErrorCode::NumErr);
        },
    };
    let ghost accrued = market@;
    market.assets[asset_index].orderbook.slots[slot_index] = new_liquidity;
    assert(market@ =~~= accrued.with_slot(asset_index as int, slot_index as int, new_liquidity));
    let ((deposit_amounts, _deposit_mints), (withdraw_amounts, withdraw_mints)) =
        delta_split_extraction(&delta_split, &market);
    if !deposit_amounts.is_empty() {
        return Err(ErrorCode::ShouldBeNoDepositAmountsInRemoveBid);
    }
    *all_assets = market;
    Ok((withdraw_amounts, withdraw_mints))
}

} // verus!
