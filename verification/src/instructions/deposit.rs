use vstd::prelude::*;
use crate::errors::ErrorCode;
use crate::pubkey::Pubkey;
use crate::state::all_assets::AllAssets;
use crate::state::lender_deposit::LenderDeposit;
use crate::state::model::MarketModel;
use crate::utility::{delta_split_extraction, deposit_part, spec_rescale, withdraw_part};

verus! {

/// What a lender's position is credited with when `amount` is deposited at
/// lender multiplier `multiplier`: a fresh position (no multiplier recorded)
/// gets `amount`; an existing one is first brought up to date with the
/// multiplier.
pub open spec fn credited_amount(position: LenderDeposit, multiplier: u64, amount: u64) -> Result<
    u64,
    ErrorCode,
> {
    if position.last_multiplier == 0 {
        Ok(amount)
    } else {
        match spec_rescale(position.amount, multiplier as u128, position.last_multiplier) {
            Err(e) => Err(e),
            Ok(current) => if current + amount > u64::MAX {
                Err(ErrorCode::NumErr)
            } else {
                Ok((current + amount) as u64)
            },
        }
    }
}

/// The outcome of a lender depositing `amount`: the market accrues interest
/// up to `now`; the deposit is split over the books as the difference between
/// the split of the new lenders' amount and the split of the current one, and
/// the positive parts are the transfers the lender makes, per mint; the
/// lenders' amount grows by `amount`, and the position is credited. Refused
/// for a zero amount, when accrual or a sum overflows, or when the split asks
/// for a withdrawal.
pub open spec fn deposit_outcome(
    m: MarketModel,
    position: LenderDeposit,
    payer: Pubkey,
    amount: u64,
    now: i64,
    bump: u8,
) -> Result<(MarketModel, LenderDeposit, Seq<u64>, Seq<Pubkey>), ErrorCode> {
    if amount == 0 {
        Err(ErrorCode::LuserEstUnRat)
    } else {
        match m.accrue(now) {
            Err(e) => Err(e),
            Ok(m1) => match m1.lender_delta(amount, true) {
                Err(e) => Err(e),
                Ok(d) => {
                    let n = m1.size_assets as int;
                    if withdraw_part(d, m1, n).0.len() > 0 {
                        Err(ErrorCode::ShouldBeNoWithdrawAmounts)
                    } else {
                        let m2 = MarketModel { amount: (m1.amount + amount) as u64, ..m1 };
                        match credited_amount(position, m2.lender_multiplier, amount) {
                            Err(e) => Err(e),
                            Ok(total) => Ok(
                                (
                                    m2,
                                    LenderDeposit {
                                        lender: payer,
                                        amount: total,
                                        last_multiplier: m2.lender_multiplier,
                                        bump,
                                    },
                                    deposit_part(d, m1, n).0,
                                    deposit_part(d, m1, n).1,
                                ),
                            ),
                        }
                    }
                },
            },
        }
    }
}

/// A lender deposits `amount` into the market; returns the amounts to
/// transfer into the vault, with their mints.
pub fn handler(
    all_assets: &mut AllAssets,
    lender_deposit: &mut LenderDeposit,
    payer: Pubkey,
    amount: u64,
    current_timestamp: i64,
    bump: u8,
) -> (r: Result<(Vec<u64>, Vec<Pubkey>), ErrorCode>)
    requires
        amount > 0 ==> old(all_assets)@.accrual_defined(current_timestamp),
    ensures
        match deposit_outcome(old(all_assets)@, *old(lender_deposit), payer, amount, current_timestamp, bump) {
            Ok((m, position, amounts, mints)) => {
                &&& r matches Ok((a, ms)) && a@ == amounts && ms@ == mints
                &&& final(all_assets)@ == m
                &&& *final(lender_deposit) == position
            },
            Err(e) => {
                &&& r matches Err(x) && x == e
                &&& *final(all_assets) == *old(all_assets)
                &&& *final(lender_deposit) == *old(lender_deposit)
            },
        },
{
    if !(amount > 0) {
        return Err(ErrorCode::LuserEstUnRat);
    }
    let mut market = *all_assets;
    market.update_timestamp_and_multiplier(current_timestamp)?;
    let delta_split = market.delta_split_lender(amount, true)?;
    let new_amount = match market.amount.checked_add(amount) {
        Some(v) => v,
        None => {
            return Err(ErrorCode::NumErr);
        },
    };
    let ((deposit_amounts, deposit_mints), (withdraw_amounts, _withdraw_mints)) =
        delta_split_extraction(&delta_split, &market);
    if withdraw_amounts.len() != 0 {
        return Err(ErrorCode::ShouldBeNoWithdrawAmounts);
    }
    market.amount = new_amount;
    let mut position = *lender_deposit;
    position.lender = payer;
    if position.last_multiplier == 0 {
        position.amount = amount;
        position.last_multiplier = market.lender_multiplier;
    } else {
        position.adjust_for_lender_multiplier(market.lender_multiplier as u128)?;
        position.amount = match position.amount.checked_add(amount) {
            Some(v) => v,
            None => {
                return Err(ErrorCode::NumErr);
            },
        };
    }
    position.bump = bump;
    *all_assets = market;
    *lender_deposit = position;
    Ok((deposit_amounts, deposit_mints))
}

} // verus!
