use vstd::prelude::*;
use crate::constants::MIN_DEPOSIT;
use crate::errors::ErrorCode;
use crate::instructions::deposit::deposit_outcome;
use crate::instructions::place_bid::place_bid_outcome;
use crate::instructions::remove_bid::remove_bid_outcome;
use crate::instructions::withdraw::withdraw_outcome;
use crate::pubkey::Pubkey;
use crate::state::all_assets::{AllAssets, MAX_ASSETS};
use crate::state::lender_deposit::LenderDeposit;
use crate::state::looper_deposit::LooperDeposit;
use crate::state::model::{MarketModel, ORDERBOOK_SIZE, min_int, split_change};
use crate::utility::{deposit_part, withdraw_part, spec_rescale};
use crate::laws::law_accrual_keeps_the_books;

verus! {

/// A deposit is made on the market as accrued up to `now`: the lenders' amount
/// afterwards is the accrued lenders' amount plus the deposit, and nothing
/// else of the accrued market changes; the position is credited with the
/// deposit on top of what it was worth at the accrued lender multiplier (a
/// fresh position, with no multiplier recorded, was worth nothing), and it
/// records the lender multiplier of the market it leaves behind; the
/// transfers are exactly the growth of each asset's share from the split of
/// the accrued lenders' amount to the split of the new one, and nothing is
/// withdrawn.
pub proof fn law_deposit_is_made_on_the_accrued_market(
    a: AllAssets,
    position: LenderDeposit,
    payer: Pubkey,
    amount: u64,
    now: i64,
    bump: u8,
)
    requires
        deposit_outcome(a@, position, payer, amount, now, bump) is Ok,
    ensures
        a@.accrue(now) is Ok,
        ({
            let m1 = a@.accrue(now)->Ok_0;
            let (m2, p2, amounts, mints) = deposit_outcome(a@, position, payer, amount, now, bump)->Ok_0;
            let d = split_change(m1.split(m1.amount as int), m2.split(m2.amount as int));
            let n = m1.size_assets as int;
            &&& amount > 0
            &&& m2.amount == m1.amount + amount
            &&& m2 == (MarketModel { amount: m2.amount, ..m1 })
            &&& p2.lender == payer
            &&& p2.bump == bump
            &&& p2.last_multiplier == m2.lender_multiplier
            &&& position.last_multiplier == 0 ==> p2.amount == amount
            &&& position.last_multiplier != 0 ==> {
                &&& spec_rescale(position.amount, m1.lender_multiplier as u128, position.last_multiplier) is Ok
                &&& p2.amount == spec_rescale(
                    position.amount,
                    m1.lender_multiplier as u128,
                    position.last_multiplier,
                )->Ok_0 + amount
            }
            &&& amounts == deposit_part(d, m1, n).0
            &&& mints == deposit_part(d, m1, n).1
            &&& withdraw_part(d, m1, n).0.len() == 0
        }),
{
    let m1 = a@.accrue(now)->Ok_0;
    let m2 = deposit_outcome(a@, position, payer, amount, now, bump)->Ok_0.0;
    assert(m2.book() =~~= m1.book());
}

/// A withdrawal is made on the market as accrued up to `now`: what is
/// withdrawn is the amount asked, or all the position is worth at the accrued
/// lender multiplier when that is less; the lenders' amount afterwards is the
/// accrued lenders' amount minus what is withdrawn, and nothing else of the
/// accrued market changes; the position keeps the rest of its worth and
/// records the lender multiplier of the market it leaves behind; only the
/// position's lender may withdraw; the transfers are exactly the shrinking of
/// each asset's share from the split of the accrued lenders' amount to the
/// split of the new one, and nothing is deposited.
pub proof fn law_withdraw_is_made_on_the_accrued_market(
    a: AllAssets,
    position: LenderDeposit,
    payer: Pubkey,
    amount: u64,
    now: i64,
)
    requires
        withdraw_outcome(a@, position, payer, amount, now) is Ok,
    ensures
        payer == position.lender,
        a@.accrue(now) is Ok,
        spec_rescale(position.amount, a@.accrue(now)->Ok_0.lender_multiplier as u128, position.last_multiplier) is Ok,
        ({
            let m1 = a@.accrue(now)->Ok_0;
            let worth = spec_rescale(position.amount, m1.lender_multiplier as u128, position.last_multiplier)->Ok_0;
            let withdrawn = min_int(amount as int, worth as int);
            let (m2, p2, amounts, mints) = withdraw_outcome(a@, position, payer, amount, now)->Ok_0;
            let d = split_change(m1.split(m1.amount as int), m2.split(m2.amount as int));
            let n = m1.size_assets as int;
            &&& m2.amount == m1.amount - withdrawn
            &&& m2 == (MarketModel { amount: m2.amount, ..m1 })
            &&& p2.amount == worth - withdrawn
            &&& p2.last_multiplier == m2.lender_multiplier
            &&& p2 == (LenderDeposit { amount: p2.amount, last_multiplier: p2.last_multiplier, ..position })
            &&& amounts == withdraw_part(d, m1, n).0
            &&& mints == withdraw_part(d, m1, n).1
            &&& deposit_part(d, m1, n).0.len() == 0
        }),
{
    let m1 = a@.accrue(now)->Ok_0;
    let m2 = withdraw_outcome(a@, position, payer, amount, now)->Ok_0.0;
    assert(m2.book() =~~= m1.book());
}

/// A bid is placed on the market as accrued up to `now`: it names a listed
/// asset and a tick of the book and exceeds `MIN_DEPOSIT`; afterwards the
/// tick's liquidity is the accrued one plus the bid, and nothing else of the
/// accrued market changes; the new position holds the bid and records the
/// multiplier and decay of its tick in the market it leaves behind; the
/// transfers are exactly the change of each asset's share of the accrued
/// lenders' amount from the split over the current books to the split over
/// the new ones (growths deposited, shrinkings withdrawn).
pub proof fn law_place_bid_is_made_on_the_accrued_market(
    a: AllAssets,
    payer: Pubkey,
    asset_index: usize,
    slot_index: usize,
    amount: u64,
    now: i64,
    bump: u8,
)
    requires
        a.size_assets <= MAX_ASSETS,
        place_bid_outcome(a@, payer, asset_index, slot_index, amount, now, bump) is Ok,
    ensures
        a@.accrue(now) is Ok,
        ({
            let m1 = a@.accrue(now)->Ok_0;
            let i = asset_index as int;
            let j = slot_index as int;
            let (m2, p, deposits, deposit_mints, withdrawals, withdraw_mints) = place_bid_outcome(
                a@,
                payer,
                asset_index,
                slot_index,
                amount,
                now,
                bump,
            )->Ok_0;
            let d = split_change(m1.split(m1.amount as int), m2.split(m2.amount as int));
            let n = m1.size_assets as int;
            &&& asset_index < m1.size_assets
            &&& slot_index < ORDERBOOK_SIZE
            &&& amount > MIN_DEPOSIT
            &&& m2.assets[i].slots[j] == m1.assets[i].slots[j] + amount
            &&& m2 == m1.with_slot(i, j, m2.assets[i].slots[j])
            &&& p == (LooperDeposit {
                looper: payer,
                asset_index: asset_index as u64,
                slot_index: slot_index as u64,
                amount,
                last_multiplier: m2.assets[i].looper_multiplier[j],
                last_decay: m2.assets[i].low_position_decay[j],
                bump,
            })
            &&& deposits == deposit_part(d, m2, n).0
            &&& deposit_mints == deposit_part(d, m2, n).1
            &&& withdrawals == withdraw_part(d, m2, n).0
            &&& withdraw_mints == withdraw_part(d, m2, n).1
        }),
{
    law_accrual_keeps_the_books(a@, now);
    let m1 = a@.accrue(now)->Ok_0;
    assert(m1.assets[asset_index as int].mint == a@.assets[asset_index as int].mint);
}

/// A bid is removed from the market as accrued up to `now`: the indices name
/// a listed asset and a tick of the book; the position is worth its bid
/// brought up to the accrued multiplier of its tick, then to the accrued decay
/// of its tick; afterwards the tick's liquidity is the accrued one minus that
/// worth, and nothing else of the accrued market changes; the transfers are
/// exactly the shrinking of each asset's share of the accrued lenders' amount
/// from the split over the current books to the split over the new ones, and
/// nothing is deposited.
pub proof fn law_remove_bid_is_made_on_the_accrued_market(
    a: AllAssets,
    position: LooperDeposit,
    asset_index: usize,
    slot_index: usize,
    now: i64,
)
    requires
        a.size_assets <= MAX_ASSETS,
        remove_bid_outcome(a@, position, asset_index, slot_index, now) is Ok,
    ensures
        a@.accrue(now) is Ok,
        ({
            let m1 = a@.accrue(now)->Ok_0;
            let i = asset_index as int;
            let j = slot_index as int;
            let grown = spec_rescale(
                position.amount,
                m1.assets[i].looper_multiplier[j] as u128,
                position.last_multiplier,
            );
            let worth = spec_rescale(grown->Ok_0, m1.assets[i].low_position_decay[j] as u128, position.last_decay);
            let (m2, amounts, mints) = remove_bid_outcome(a@, position, asset_index, slot_index, now)->Ok_0;
            let d = split_change(m1.split(m1.amount as int), m2.split(m2.amount as int));
            let n = m1.size_assets as int;
            &&& asset_index < m1.size_assets
            &&& slot_index < ORDERBOOK_SIZE
            &&& grown is Ok
            &&& worth is Ok
            &&& m2.assets[i].slots[j] == m1.assets[i].slots[j] - worth->Ok_0
            &&& m2 == m1.with_slot(i, j, m2.assets[i].slots[j])
            &&& amounts == withdraw_part(d, m2, n).0
            &&& mints == withdraw_part(d, m2, n).1
            &&& deposit_part(d, m2, n).0.len() == 0
        }),
{
    law_accrual_keeps_the_books(a@, now);
    let m1 = a@.accrue(now)->Ok_0;
    assert(m1.assets[asset_index as int].mint == a@.assets[asset_index as int].mint);
}

/// When each instruction is refused, and with what: an empty deposit and a
/// withdrawal by anyone but the position's lender are refused before anything
/// else; otherwise an accrual that fails refuses the instruction with its
/// error; on the accrued market, a bid placed or removed on an unlisted asset
/// or outside the book is refused with `InvalidAssetIndex` or
/// `InvalidSlotIndex`, and a bid not above `MIN_DEPOSIT` with `LuserEstUnRat`.
pub proof fn law_instruction_refusals(
    m: MarketModel,
    lender_position: LenderDeposit,
    looper_position: LooperDeposit,
    payer: Pubkey,
    asset_index: usize,
    slot_index: usize,
    amount: u64,
    now: i64,
    bump: u8,
)
    ensures
        amount == 0 ==> deposit_outcome(m, lender_position, payer, amount, now, bump) == Err::<
            (MarketModel, LenderDeposit, Seq<u64>, Seq<Pubkey>),
            ErrorCode,
        >(ErrorCode::LuserEstUnRat),
        payer != lender_position.lender ==> withdraw_outcome(m, lender_position, payer, amount, now) == Err::<
            (MarketModel, LenderDeposit, Seq<u64>, Seq<Pubkey>),
            ErrorCode,
        >(ErrorCode::OnlyOriginalLender),
        m.accrue(now) is Err ==> {
            let e = m.accrue(now)->Err_0;
            &&& amount > 0 ==> deposit_outcome(m, lender_position, payer, amount, now, bump) == Err::<
                (MarketModel, LenderDeposit, Seq<u64>, Seq<Pubkey>),
                ErrorCode,
            >(e)
            &&& payer == lender_position.lender ==> withdraw_outcome(m, lender_position, payer, amount, now)
                == Err::<(MarketModel, LenderDeposit, Seq<u64>, Seq<Pubkey>), ErrorCode>(e)
            &&& place_bid_outcome(m, payer, asset_index, slot_index, amount, now, bump) is Err
            &&& place_bid_outcome(m, payer, asset_index, slot_index, amount, now, bump)->Err_0 == e
            &&& remove_bid_outcome(m, looper_position, asset_index, slot_index, now) is Err
            &&& remove_bid_outcome(m, looper_position, asset_index, slot_index, now)->Err_0 == e
        },
        m.accrue(now) is Ok ==> {
            let m1 = m.accrue(now)->Ok_0;
            let bad_asset = asset_index >= m1.size_assets;
            let bad_slot = !bad_asset && slot_index >= ORDERBOOK_SIZE;
            &&& bad_asset ==> place_bid_outcome(m, payer, asset_index, slot_index, amount, now, bump) is Err
                && place_bid_outcome(m, payer, asset_index, slot_index, amount, now, bump)->Err_0
                == ErrorCode::InvalidAssetIndex
            &&& bad_asset ==> remove_bid_outcome(m, looper_position, asset_index, slot_index, now) is Err
                && remove_bid_outcome(m, looper_position, asset_index, slot_index, now)->Err_0
                == ErrorCode::InvalidAssetIndex
            &&& bad_slot ==> place_bid_outcome(m, payer, asset_index, slot_index, amount, now, bump) is Err
                && place_bid_outcome(m, payer, asset_index, slot_index, amount, now, bump)->Err_0
                == ErrorCode::InvalidSlotIndex
            &&& bad_slot ==> remove_bid_outcome(m, looper_position, asset_index, slot_index, now) is Err
                && remove_bid_outcome(m, looper_position, asset_index, slot_index, now)->Err_0
                == ErrorCode::InvalidSlotIndex
            &&& !bad_asset && !bad_slot && amount <= MIN_DEPOSIT ==> place_bid_outcome(
                m,
                payer,
                asset_index,
                slot_index,
                amount,
                now,
                bump,
            ) is Err && place_bid_outcome(m, payer, asset_index, slot_index, amount, now, bump)->Err_0
                == ErrorCode::LuserEstUnRat
        },
{
}

} // verus!
