use vstd::prelude::*;
use crate::errors::ErrorCode;
use crate::pubkey::Pubkey;
use crate::state::all_assets::AllAssets;
use crate::state::lender_deposit::LenderDeposit;
use crate::state::model::{MarketModel, min_int};
use crate::utility::{delta_split_extraction, deposit_part, spec_rescale, withdraw_part};

verus! {

/// The transfers of a withdrawal: the amounts to send to the lender with
/// their mints, and whether the lender's position is emptied (and closed).
#[derive(Debug)]
pub struct Withdrawal {
    pub amounts: Vec<u64>,
    pub mints: Vec<Pubkey>,
    pub close_position: bool,
}

/// The outcome of a lender withdrawing `amount`: only the position's lender
/// may withdraw; the market accrues interest up to `now`; the position is
/// brought up to date with the lender multiplier, and what is withdrawn is
/// `amount`, or the whole position when it holds less; the lenders' amount
/// shrinks by what is withdrawn; that withdrawal is taken from the books as
/// the difference between the split of the reduced lenders' amount and the
/// split of the current one, and the negative parts are the transfers to the
/// lender, per mint. Refused when the payer is not the lender, when accrual or
/// the position's update overflows, when the lenders' amount is below what is
/// withdrawn, or when the split asks for a deposit.
pub open spec fn withdraw_outcome(
    m: MarketModel,
    position: LenderDeposit,
    payer: Pubkey,
    amount: u64,
    now: i64,
) -> Result<(MarketModel, LenderDeposit, Seq<u64>, Seq<Pubkey>), ErrorCode> {
    if payer != position.lender {
        Err(ErrorCode::OnlyOriginalLender)
    } else {
        match m.accrue(now) {
            Err(e) => Err(e),
            Ok(m1) => match spec_rescale(position.amount, m1.lender_multiplier as u128, position.last_multiplier) {
                Err(e) => Err(e),
                Ok(current) => {
                    let withdrawn = min_int(amount as int, current as int) as u64;
                    if m1.amount < withdrawn {
                        Err(ErrorCode::NumErr)
                    } else {
                        match m1.lender_delta(withdrawn, false) {
                            Err(e) => Err(e),
                            Ok(d) => {
                                let n = m1.size_assets as int;
                                if deposit_part(d, m1, n).0.len() > 0 {
                                    Err(ErrorCode::ShouldBeNoDepositAmounts)
                                } else {
                                    Ok(
                                        (
                                            MarketModel { amount: (m1.amount - withdrawn) as u64, ..m1 },
                                            LenderDeposit {
                                                amount: (current - withdrawn) as u64,
                                                last_multiplier: m1.lender_multiplier,
                                                ..position
                                            },
                                            withdraw_part(d, m1, n).0,
                                            withdraw_part(d, m1, n).1,
                                        ),
                                    )
                                }
                            },
                        }
                    }
                },
            },
        }
    }
}

/// A lender withdraws up to `amount` from the market; returns the amounts
/// to transfer out of the vault with their mints, and whether the position
/// is now empty.
pub fn handler(
    all_assets: &mut AllAssets,
    lender_deposit: &mut LenderDeposit,
    payer: Pubkey,
    amount: u64,
    current_timestamp: i64,
) -> (r: Result<Withdrawal, ErrorCode>)
    requires
        payer == old(lender_deposit).lender ==> old(all_assets)@.accrual_defined(current_timestamp),
    ensures
        match withdraw_outcome(old(all_assets)@, *old(lender_deposit), payer, amount, current_timestamp) {
            Ok((m, position, amounts, mints)) => {
                &&& r matches Ok(w) && w.amounts@ == amounts && w.mints@ == mints && w.close_position == (
                position.amount == 0)
                &&& final(all_assets)@ == m
                &&& *final(lender_deposit) == position
            },
            Err(e) => {
                &&& r matches Err(x) && x == e
                &&& *final(all_assets) == *old(all_assets)
                &&& *final(lender_deposit) == *old(lender_deposit)
            },
        },
{
    if !payer.equals(&lender_deposit.lender) {
        return Err(ErrorCode::OnlyOriginalLender);
    }
    assert(payer == lender_deposit.lender);
    let mut market = *all_assets;
    market.update_timestamp_and_multiplier(current_timestamp)?;
    let mut position = *lender_deposit;
    position.adjust_for_lender_multiplier(market.lender_multiplier as u128)?;
    let amount = if amount > position.amount {
        position.amount
    } else {
        amount
    };
    position.amount = position.amount - amount;
    let new_amount = match market.amount.checked_sub(amount) {
        Some(v) => v,
        None => {
            return Err(ErrorCode::NumErr);
        },
    };
    let delta_split = market.delta_split_lender(amount, false)?;
    let ((deposit_amounts, _deposit_mints), (withdraw_amounts, withdraw_mints)) =
        delta_split_extraction(&delta_split, &market);
    if deposit_amounts.len() != 0 {
        return Err(ErrorCode::ShouldBeNoDepositAmounts);
    }
    market.amount = new_amount;
    let close_position = position.amount == 0;
    *all_assets = market;
    *lender_deposit = position;
    Ok(Withdrawal { amounts: withdraw_amounts, mints: withdraw_mints, close_position })
}

} // verus!
