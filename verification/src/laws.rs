use vstd::prelude::*;
use crate::errors::ErrorCode;
use crate::instructions::deposit::deposit_outcome;
use crate::instructions::withdraw::withdraw_outcome;
use crate::pubkey::Pubkey;
use crate::state::all_assets::{AllAssets, MAX_ASSETS};
use crate::state::lender_deposit::LenderDeposit;
use crate::state::model::{
    BookModel, MarketModel, ORDERBOOK_SIZE, lemma_served_before, lemma_asset_taken_bound,
    lemma_lowest_taken_tick, lemma_split_entry_facts, split_amount_sum, slots_sum_from,
};
use crate::utility::{
    deposit_part, withdraw_part, spec_update_multiplier, spec_rescale, lemma_update_multiplier_of_zero,
};

verus! {

/// The split serves the best bids first: when it takes anything from a slot,
/// it takes the whole liquidity of every slot of a higher tick, and of every
/// slot of the same tick in an asset with a lower index.
pub proof fn law_split_serves_better_slots_first(
    m: BookModel,
    a: int,
    i1: int,
    j1: int,
    i2: int,
    j2: int,
)
    requires
        0 <= i1 < m.size_assets,
        0 <= i2 < m.size_assets,
        0 <= j1 < ORDERBOOK_SIZE,
        0 <= j2 < ORDERBOOK_SIZE,
        j2 > j1 || (j2 == j1 && i2 < i1),
        m.taken(a, i1, j1) > 0,
    ensures
        m.taken(a, i2, j2) == m.cell(i2, j2),
{
    lemma_served_before(m, i1, j1, i2, j2);
}

proof fn lemma_asset_taken_monotone(m: BookModel, a1: int, a2: int, i: int, j: int)
    requires
        a1 <= a2,
    ensures
        m.asset_taken_from(a1, i, j) <= m.asset_taken_from(a2, i, j),
    decreases ORDERBOOK_SIZE - j,
{
    if j < ORDERBOOK_SIZE {
        lemma_asset_taken_monotone(m, a1, a2, i, j + 1);
    }
}

/// Splitting more never takes less from any asset.
pub proof fn law_split_monotone(m: BookModel, a1: int, a2: int, i: int)
    requires
        0 <= a1 <= a2 <= u64::MAX,
        0 <= i < m.size_assets,
    ensures
        m.split(a1)[i].1 <= m.split(a2)[i].1,
{
    lemma_asset_taken_monotone(m, a1, a2, i, 0);
    lemma_asset_taken_bound(m, a1, i, 0);
    lemma_asset_taken_bound(m, a2, i, 0);
}

/// The asset's tick in the split is the lowest tick the split takes from:
/// it is the price the asset's selected bids pay.
pub proof fn law_split_tick_is_lowest_taken(m: BookModel, a: int, i: int, j: int)
    requires
        0 <= a <= u64::MAX,
        0 <= i < m.size_assets,
        0 <= j < ORDERBOOK_SIZE,
        m.taken(a, i, j) > 0,
    ensures
        m.split(a)[i].1 > 0,
        m.split(a)[i].0 <= j,
        m.taken(a, i, m.split(a)[i].0 as int) > 0,
{
    lemma_asset_taken_bound(m, a, i, 0);
    lemma_taken_counts(m, a, i, 0, j);
    lemma_lowest_below(m, a, i, 0, j);
}

proof fn lemma_taken_counts(m: BookModel, a: int, i: int, j0: int, j: int)
    requires
        0 <= j0 <= j < ORDERBOOK_SIZE,
        m.taken(a, i, j) > 0,
        0 <= a,
        0 <= i < m.size_assets,
    ensures
        m.asset_taken_from(a, i, j0) > 0,
    decreases j - j0,
{
    if j0 < j {
        lemma_taken_counts(m, a, i, j0 + 1, j);
        lemma_asset_taken_bound(m, a, i, j0);
        lemma_taken_nonneg(m, a, i, j0);
    } else {
        lemma_asset_taken_bound(m, a, i, j0 + 1);
    }
}

proof fn lemma_taken_nonneg(m: BookModel, a: int, i: int, j: int)
    ensures
        m.taken(a, i, j) >= 0,
{
}

proof fn lemma_lowest_below(m: BookModel, a: int, i: int, j0: int, j: int)
    requires
        0 <= j0 <= j < ORDERBOOK_SIZE,
        m.taken(a, i, j) > 0,
    ensures
        m.lowest_taken_tick_from(a, i, j0) <= j,
        m.taken(a, i, m.lowest_taken_tick_from(a, i, j0)) > 0,
    decreases j - j0,
{
    if j0 < j && m.taken(a, i, j0) <= 0 {
        lemma_lowest_below(m, a, i, j0 + 1, j);
    }
}

proof fn lemma_taken_whole_above(m: BookModel, a: int, i: int, t: int, j: int)
    requires
        0 <= i < m.size_assets,
        i < m.slots.len(),
        m.slots[i].len() == ORDERBOOK_SIZE,
        0 <= t < j,
        t < ORDERBOOK_SIZE,
        m.taken(a, i, t) > 0,
    ensures
        m.asset_taken_from(a, i, j) == slots_sum_from(m.slots[i], j),
    decreases ORDERBOOK_SIZE - j,
{
    if j < ORDERBOOK_SIZE {
        law_split_serves_better_slots_first(m, a, i, t, i, j);
        lemma_taken_whole_above(m, a, i, t, j + 1);
    }
}

proof fn lemma_nothing_taken_below_lowest(m: BookModel, a: int, i: int, j: int)
    requires
        0 <= j,
    ensures
        m.asset_taken_from(a, i, j) == m.asset_taken_from(a, i, m.lowest_taken_tick_from(a, i, j)),
    decreases ORDERBOOK_SIZE - j,
{
    if j < ORDERBOOK_SIZE && m.taken(a, i, j) <= 0 {
        lemma_taken_nonneg(m, a, i, j);
        lemma_nothing_taken_below_lowest(m, a, i, j + 1);
    }
}

/// The entry of a selected asset in the split of the lenders' amount, read on
/// the raw slots of its book: its tick is a tick of the book, what it takes at
/// that tick is positive and at most the tick's liquidity, and it takes the
/// whole liquidity of every higher tick of the asset.
pub proof fn law_split_takes_whole_ticks_above(a: AllAssets, i: int)
    requires
        a.size_assets <= MAX_ASSETS,
        0 <= i < a.size_assets,
        a@.split(a.amount as int)[i].1 > 0,
    ensures
        ({
            let r = a@.split(a.amount as int)[i];
            let slots = a.assets[i].orderbook.slots@;
            &&& r.0 < ORDERBOOK_SIZE
            &&& 0 < r.2 <= slots[r.0 as int]
            &&& r.1 == r.2 + slots_sum_from(slots, r.0 + 1)
        }),
{
    let m = a@.book();
    let amount = a.amount as int;
    assert(m.slots[i] == a.assets[i].orderbook.slots@);
    lemma_split_entry_facts(m, amount, i);
    let t = m.split_entry(amount, i).0 as int;
    lemma_lowest_taken_tick(m, amount, i, 0);
    lemma_nothing_taken_below_lowest(m, amount, i, 0);
    lemma_taken_whole_above(m, amount, i, t, t + 1);
}

/// Every asset with liquidity at a tick above the tick of some selected asset
/// is selected too, at that tick or a lower one; and when its own tick is that
/// one, it takes the whole liquidity there.
pub proof fn law_split_fills_better_ticks(a: AllAssets, i: int, k: int, j: int)
    requires
        a.size_assets <= MAX_ASSETS,
        0 <= i < a.size_assets,
        0 <= k < a.size_assets,
        a@.split(a.amount as int)[i].1 > 0,
        a@.split(a.amount as int)[i].0 < j < ORDERBOOK_SIZE,
        a.assets[k].orderbook.slots[j] > 0,
    ensures
        ({
            let r = a@.split(a.amount as int);
            &&& r[k].1 > 0
            &&& r[k].0 < j || (r[k].0 == j && r[k].2 == a.assets[k].orderbook.slots[j])
        }),
{
    let m = a@.book();
    let amount = a.amount as int;
    assert(m.slots[k] == a.assets[k].orderbook.slots@);
    lemma_split_entry_facts(m, amount, i);
    let t = m.split_entry(amount, i).0 as int;
    law_split_serves_better_slots_first(m, amount, i, t, k, j);
    assert(m.taken(amount, k, j) == a.assets[k].orderbook.slots[j]);
    law_split_tick_is_lowest_taken(m, amount, k, j);
    assert(a@.split(amount)[k] == m.split_entry(amount, k));
    if m.split_entry(amount, k).0 == j {
        lemma_split_entry_facts(m, amount, k);
        lemma_lowest_taken_tick(m, amount, k, 0);
        lemma_taken_nonneg(m, amount, k, j);
        assert(m.split_entry(amount, k).2 == m.taken(amount, k, j));
    }
}

/// Applying the changes of a lender delta to the current split gives the
/// split of the new lenders' amount.
pub proof fn law_lender_delta_composes(m: MarketModel, delta: u64, sign: bool, i: int)
    requires
        0 <= i < m.size_assets,
        m.lender_delta(delta, sign) is Ok,
    ensures
        ({
            let d = m.lender_delta(delta, sign)->Ok_0;
            let target = if sign {
                m.amount + delta
            } else {
                m.amount - delta
            };
            &&& m.split(m.amount as int)[i].1 + d[i].1 == m.split(target)[i].1
            &&& d[i].0 == m.split(target)[i].0
        }),
{
}

proof fn lemma_no_withdrawal_part(d: Seq<(u64, i128)>, m: MarketModel, k: int)
    requires
        forall|i: int| 0 <= i < k ==> #[trigger] d[i].1 >= 0,
    ensures
        withdraw_part(d, m, k).0.len() == 0,
    decreases k,
{
    if k > 0 {
        lemma_no_withdrawal_part(d, m, k - 1);
    }
}

proof fn lemma_no_deposit_part(d: Seq<(u64, i128)>, m: MarketModel, k: int)
    requires
        forall|i: int| 0 <= i < k ==> #[trigger] d[i].1 <= 0,
    ensures
        deposit_part(d, m, k).0.len() == 0,
    decreases k,
{
    if k > 0 {
        lemma_no_deposit_part(d, m, k - 1);
    }
}

/// A lender's deposit only ever asks for transfers into the vault: it is
/// never refused for asking a withdrawal.
pub proof fn law_deposit_never_withdraws(
    m: MarketModel,
    position: LenderDeposit,
    payer: Pubkey,
    amount: u64,
    now: i64,
    bump: u8,
)
    ensures
        deposit_outcome(m, position, payer, amount, now, bump) != Err::<
            (MarketModel, LenderDeposit, Seq<u64>, Seq<Pubkey>),
            ErrorCode,
        >(ErrorCode::ShouldBeNoWithdrawAmounts),
{
    if amount > 0 {
        if let Ok(m1) = m.accrue(now) {
            if let Ok(d) = m1.lender_delta(amount, true) {
                let n = m1.size_assets as int;
                assert forall|i: int| 0 <= i < n implies #[trigger] d[i].1 >= 0 by {
                    law_split_monotone(m1.book(), m1.amount as int, m1.amount + amount, i);
                }
                lemma_no_withdrawal_part(d, m1, n);
            }
        }
    }
}

/// A lender's withdrawal only ever asks for transfers out of the vault: it
/// is never refused for asking a deposit.
pub proof fn law_withdraw_never_deposits(
    m: MarketModel,
    position: LenderDeposit,
    payer: Pubkey,
    amount: u64,
    now: i64,
)
    ensures
        withdraw_outcome(m, position, payer, amount, now) != Err::<
            (MarketModel, LenderDeposit, Seq<u64>, Seq<Pubkey>),
            ErrorCode,
        >(ErrorCode::ShouldBeNoDepositAmounts),
{
    if payer == position.lender {
        if let Ok(m1) = m.accrue(now) {
            if let Ok(current) = spec_rescale(
                position.amount,
                m1.lender_multiplier as u128,
                position.last_multiplier,
            ) {
                let withdrawn = if amount <= current {
                    amount
                } else {
                    current
                };
                if m1.amount >= withdrawn {
                    if let Ok(d) = m1.lender_delta(withdrawn, false) {
                        let n = m1.size_assets as int;
                        assert forall|i: int| 0 <= i < n implies #[trigger] d[i].1 <= 0 by {
                            law_split_monotone(m1.book(), m1.amount - withdrawn, m1.amount as int, i);
                        }
                        lemma_no_deposit_part(d, m1, n);
                    }
                }
            }
        }
    }
}

/// No time elapsed, no interest: the multiplier is unchanged.
pub proof fn law_no_interest_without_time(apy: u64, start_multiplier: u64)
    ensures
        spec_update_multiplier(apy, 0, start_multiplier) == Ok::<u64, ErrorCode>(start_multiplier),
{
    assert((start_multiplier as int) * (apy as int) * 0 == 0) by (nonlinear_arith);
}

/// Interest never makes a multiplier shrink.
pub proof fn law_multiplier_never_decreases(apy: u64, time_elapsed: i64, start_multiplier: u64)
    requires
        spec_update_multiplier(apy, time_elapsed, start_multiplier) is Ok,
    ensures
        spec_update_multiplier(apy, time_elapsed, start_multiplier)->Ok_0 >= start_multiplier,
{
    let product = (start_multiplier as int) * (apy as int) * crate::utility::i64_as_u128(
        time_elapsed as int,
    );
    assert(product >= 0) by (nonlinear_arith)
        requires
            start_multiplier >= 0,
            apy >= 0,
            crate::utility::i64_as_u128(time_elapsed as int) >= 0,
            product == (start_multiplier as int) * (apy as int) * crate::utility::i64_as_u128(
                time_elapsed as int,
            ),
    ;
}

/// A zero multiplier stays zero whatever the APY and time.
pub proof fn law_zero_multiplier_stays_zero(apy: u64, time_elapsed: i64)
    ensures
        spec_update_multiplier(apy, time_elapsed, 0) == Ok::<u64, ErrorCode>(0),
{
    lemma_update_multiplier_of_zero(apy, time_elapsed);
}

/// Bringing a position up to date with the multiplier it already recorded
/// leaves its amount unchanged.
pub proof fn law_rescale_at_same_multiplier(value: u64, multiplier: u64)
    requires
        multiplier > 0,
        (value as int) * (multiplier as int) <= u128::MAX,
    ensures
        spec_rescale(value, multiplier as u128, multiplier) == Ok::<u64, ErrorCode>(value),
{
    assert(((value as int) * (multiplier as int)) / (multiplier as int) == value) by (nonlinear_arith)
        requires
            multiplier > 0,
    ;
}

proof fn lemma_best_offer_upto(m: MarketModel, k: int, i: int)
    requires
        0 <= i < k,
        m.highest_tick_upto(i, ORDERBOOK_SIZE - 1) >= 0,
    ensures
        0 <= m.best_offer_upto(k) < k,
        m.highest_tick_upto(m.best_offer_upto(k), ORDERBOOK_SIZE - 1) >= 0,
        m.tick_apy(m.highest_tick_upto(i, ORDERBOOK_SIZE - 1)) <= m.tick_apy(
            m.highest_tick_upto(m.best_offer_upto(k), ORDERBOOK_SIZE - 1),
        ),
    decreases k,
{
    if i < k - 1 {
        lemma_best_offer_upto(m, k - 1, i);
    } else if m.best_offer_upto(k - 1) >= 0 {
        lemma_best_offer_valid(m, k - 1);
    }
}

proof fn lemma_best_offer_valid(m: MarketModel, k: int)
    requires
        m.best_offer_upto(k) >= 0,
    ensures
        m.best_offer_upto(k) < k,
        m.highest_tick_upto(m.best_offer_upto(k), ORDERBOOK_SIZE - 1) >= 0,
    decreases k,
{
    if k > 0 && m.best_offer_upto(k - 1) >= 0 {
        lemma_best_offer_valid(m, k - 1);
    }
}

/// When some listed asset has liquidity, the best offer exists, and no listed
/// asset's highest tick with liquidity pays more than it.
pub proof fn law_best_offer_is_highest(m: MarketModel, i: int)
    requires
        m.size_assets <= 2,
        0 <= i < m.size_assets,
        m.highest_tick_upto(i, ORDERBOOK_SIZE - 1) >= 0,
    ensures
        m.best_offer() is Ok,
        m.tick_apy(m.highest_tick_upto(i, ORDERBOOK_SIZE - 1)) <= m.tick_apy(
            m.highest_tick_upto(m.best_offer()->Ok_0.1 as int, ORDERBOOK_SIZE - 1),
        ),
{
    lemma_best_offer_upto(m, m.size_assets as int, i);
}

proof fn lemma_no_tick_with_liquidity(m: MarketModel, i: int, j: int)
    ensures
        m.highest_tick_upto(i, j) < 0 <==> forall|q: int| 0 <= q <= j ==> #[trigger] m.book().cell(i, q) == 0,
    decreases j + 1,
{
    if j >= 0 {
        lemma_no_tick_with_liquidity(m, i, j - 1);
        if m.highest_tick_upto(i, j) < 0 {
            assert forall|q: int| 0 <= q <= j implies #[trigger] m.book().cell(i, q) == 0 by {
                if q < j {
                    assert(m.book().cell(i, q) == 0);
                }
            }
        }
    }
}

/// The best offer is refused exactly when every slot of every listed asset is
/// empty, and then only with `NoLiquidityAvailable`.
pub proof fn law_no_liquidity_iff_empty_books(a: AllAssets)
    requires
        a.size_assets <= MAX_ASSETS,
    ensures
        a@.best_offer() is Err <==> forall|k: int, j: int|
            0 <= k < a.size_assets && 0 <= j < ORDERBOOK_SIZE ==> #[trigger] a.assets[k].orderbook.slots[j] == 0,
        a@.best_offer() is Err ==> a@.best_offer() == Err::<(u64, usize, u64), ErrorCode>(
            ErrorCode::NoLiquidityAvailable,
        ),
{
    let m = a@;
    let n = a.size_assets as int;
    if m.best_offer_upto(n) < 0 {
        assert forall|k: int, j: int|
            0 <= k < n && 0 <= j < ORDERBOOK_SIZE implies #[trigger] a.assets[k].orderbook.slots[j] == 0 by {
            if m.highest_tick_upto(k, ORDERBOOK_SIZE - 1) >= 0 {
                lemma_best_offer_upto(m, n, k);
            }
            lemma_no_tick_with_liquidity(m, k, ORDERBOOK_SIZE - 1);
            assert(m.book().cell(k, j) == 0);
            assert(m.book().slots[k] == a.assets[k].orderbook.slots@);
        }
    } else {
        lemma_best_offer_valid(m, n);
        let b = m.best_offer_upto(n);
        lemma_no_tick_with_liquidity(m, b, ORDERBOOK_SIZE - 1);
        let q = choose|q: int| 0 <= q <= ORDERBOOK_SIZE - 1 && #[trigger] m.book().cell(b, q) != 0;
        assert(m.book().slots[b] == a.assets[b].orderbook.slots@);
        assert(a.assets[b].orderbook.slots[q] != 0);
    }
}

proof fn lemma_weighted_apy_bounds(m: MarketModel, s: Seq<(u64, u64, u64)>, lo: int, hi: int)
    requires
        0 <= lo <= hi,
        forall|i: int|
            0 <= i < s.len() && #[trigger] s[i].1 > 0 ==> lo <= m.tick_apy(s[i].0 as int) <= hi,
    ensures
        lo * split_amount_sum(s) <= m.weighted_apy_sum(s) <= hi * split_amount_sum(s),
    decreases s.len(),
{
    if s.len() > 0 {
        let p = s.drop_last();
        assert forall|i: int| 0 <= i < p.len() && #[trigger] p[i].1 > 0 implies lo <= m.tick_apy(
            p[i].0 as int,
        ) <= hi by {
            assert(p[i] == s[i]);
        }
        lemma_weighted_apy_bounds(m, p, lo, hi);
        let a = s.last().1 as int;
        let w = if s.last().1 > 0 {
            m.tick_apy(s.last().0 as int)
        } else {
            lo
        };
        assert(s.last() == s[s.len() - 1]);
        assert(lo * a <= w * a <= hi * a) by (nonlinear_arith)
            requires
                lo <= w <= hi,
                0 <= a,
        ;
        assert(lo * (split_amount_sum(p) + a) == lo * split_amount_sum(p) + lo * a) by (nonlinear_arith);
        assert(hi * (split_amount_sum(p) + a) == hi * split_amount_sum(p) + hi * a) by (nonlinear_arith);
    }
}

/// The lenders' APY is a blend of the APYs that the selected assets pay:
/// when every selected asset pays between `lo` and `hi`, so do the lenders.
pub proof fn law_lender_apy_is_a_blend(m: MarketModel, s: Seq<(u64, u64, u64)>, lo: int, hi: int)
    requires
        s.len() == m.size_assets,
        split_amount_sum(s) > 0,
        0 <= lo <= hi <= u64::MAX,
        forall|i: int|
            0 <= i < s.len() && #[trigger] s[i].1 > 0 ==> lo <= m.tick_apy(s[i].0 as int) <= hi,
    ensures
        lo <= m.apy_after(s) <= hi,
{
    assert(s.take(m.size_assets as int) =~= s);
    lemma_weighted_apy_bounds(m, s, lo, hi);
    let t = split_amount_sum(s);
    let w = m.weighted_apy_sum(s);
    assert(lo <= w / t <= hi) by (nonlinear_arith)
        requires
            lo * t <= w <= hi * t,
            t > 0,
    ;
}

/// Accruing interest never moves liquidity nor changes what identifies the
/// market and its assets: the books, the listed assets with their mints and
/// leverages, and the tick grid are the same after an accrual.
pub proof fn law_accrual_keeps_the_books(m: MarketModel, now: i64)
    requires
        m.accrue(now) is Ok,
    ensures
        m.accrue(now)->Ok_0.book() == m.book(),
        m.accrue(now)->Ok_0.base_asset == m.base_asset,
        m.accrue(now)->Ok_0.size_assets == m.size_assets,
        m.accrue(now)->Ok_0.start_apy == m.start_apy,
        m.accrue(now)->Ok_0.apy_tick == m.apy_tick,
        m.accrue(now)->Ok_0.assets.len() == m.assets.len(),
        forall|i: int|
            0 <= i < m.assets.len() ==> {
                &&& #[trigger] m.accrue(now)->Ok_0.assets[i].mint == m.assets[i].mint
                &&& m.accrue(now)->Ok_0.assets[i].leverage == m.assets[i].leverage
                &&& m.accrue(now)->Ok_0.assets[i].slots == m.assets[i].slots
            },
{
    let m2 = m.accrue(now)->Ok_0;
    assert(m2.book() =~~= m.book());
}

/// Accruing interest never makes the lenders' amount, the lender multiplier
/// or the multiplier of any tick shrink, and when `now` is not before the last
/// update, the market is up to date with `now` afterwards.
pub proof fn law_accrual_never_shrinks(m: MarketModel, now: i64)
    requires
        m.accrue(now) is Ok,
    ensures
        m.accrue(now)->Ok_0.amount >= m.amount,
        m.accrue(now)->Ok_0.lender_multiplier >= m.lender_multiplier,
        now >= m.last_update_timestamp ==> m.accrue(now)->Ok_0.last_update_timestamp == now,
        forall|i: int, j: int|
            0 <= i < m.assets.len() && 0 <= j < ORDERBOOK_SIZE && j < m.assets[i].looper_multiplier.len()
                ==> #[trigger] m.accrue(now)->Ok_0.assets[i].looper_multiplier[j]
                >= m.assets[i].looper_multiplier[j],
{
    let (te, g) = m.grow(now)->Ok_0;
    if te > 0 {
        law_multiplier_never_decreases(m.current_apy, te, m.amount);
        law_multiplier_never_decreases(m.current_apy, te, m.lender_multiplier);
    }
    let s = g.split(g.amount as int);
    assert(!g.looper_update_fails(te, s));
    let m2 = m.accrue(now)->Ok_0;
    assert forall|i: int, j: int|
        0 <= i < m.assets.len() && 0 <= j < ORDERBOOK_SIZE && j < m.assets[i].looper_multiplier.len()
            implies #[trigger] m2.assets[i].looper_multiplier[j] >= m.assets[i].looper_multiplier[j] by {
        if g.selected(s, i) && s[i].0 <= j {
            assert(!g.slot_update_fails(te, s, i, j));
            law_multiplier_never_decreases(
                g.tick_apy(s[i].0 as int) as u64,
                te,
                g.assets[i].looper_multiplier[j],
            );
        }
    }
}

/// Interest accrues at the APY in force before the accrual: when time has
/// passed since the last update, the lenders' amount and the lender
/// multiplier grow by that APY over the elapsed time.
pub proof fn law_interest_at_apy_in_force(m: MarketModel, now: i64)
    requires
        m.accrue(now) is Ok,
        now > m.last_update_timestamp,
    ensures
        m.accrue(now)->Ok_0.amount == spec_update_multiplier(
            m.current_apy,
            (now - m.last_update_timestamp) as i64,
            m.amount,
        )->Ok_0,
        m.accrue(now)->Ok_0.lender_multiplier == spec_update_multiplier(
            m.current_apy,
            (now - m.last_update_timestamp) as i64,
            m.lender_multiplier,
        )->Ok_0,
{
}

proof fn lemma_weighted_apy_sum_same_grid(m1: MarketModel, m2: MarketModel, s: Seq<(u64, u64, u64)>)
    requires
        m1.start_apy == m2.start_apy,
        m1.apy_tick == m2.apy_tick,
    ensures
        m1.weighted_apy_sum(s) == m2.weighted_apy_sum(s),
    decreases s.len(),
{
    if s.len() > 0 {
        lemma_weighted_apy_sum_same_grid(m1, m2, s.drop_last());
    }
}

/// Accruing twice at the same `now` (not before the last update) is accruing
/// once: the second accrual leaves the lenders' amount and multiplier, the
/// timestamp, the lenders' APY, the books and every tick's multiplier as the
/// first one left them.
pub proof fn law_accrual_idempotent(m: MarketModel, now: i64)
    requires
        now >= m.last_update_timestamp,
        m.accrue(now) is Ok,
        m.accrue(now)->Ok_0.accrue(now) is Ok,
    ensures
        ({
            let m2 = m.accrue(now)->Ok_0;
            let m3 = m2.accrue(now)->Ok_0;
            &&& m3.amount == m2.amount
            &&& m3.lender_multiplier == m2.lender_multiplier
            &&& m3.last_update_timestamp == m2.last_update_timestamp
            &&& m3.current_apy == m2.current_apy
            &&& m3.book() == m2.book()
            &&& forall|i: int, j: int|
                0 <= i < m2.assets.len() && 0 <= j < ORDERBOOK_SIZE && j
                    < m2.assets[i].looper_multiplier.len() ==> #[trigger] m3.assets[i].looper_multiplier[j]
                    == m2.assets[i].looper_multiplier[j]
        }),
{
    let (te, g) = m.grow(now)->Ok_0;
    let s = g.split(g.amount as int);
    let m2 = m.accrue(now)->Ok_0;
    law_accrual_never_shrinks(m, now);
    assert(m2.grow(now) == Ok::<(i64, MarketModel), ErrorCode>((0i64, m2)));
    assert(m2.book() =~~= g.book());
    let s2 = m2.split(m2.amount as int);
    assert(s2 == s);
    let m3 = m2.accrue(now)->Ok_0;
    assert(m3.book() =~~= m2.book());
    assert forall|i: int, j: int|
        0 <= i < m2.assets.len() && 0 <= j < ORDERBOOK_SIZE && j < m2.assets[i].looper_multiplier.len()
            implies #[trigger] m3.assets[i].looper_multiplier[j] == m2.assets[i].looper_multiplier[j] by {
        if m2.selected(s2, i) && s2[i].0 <= j {
            law_no_interest_without_time(m2.tick_apy(s2[i].0 as int) as u64, m2.assets[i].looper_multiplier[j]);
        }
    }
    let gw = g.with_looper_update(te, s);
    let m2w = m2.with_looper_update(0, s2);
    lemma_weighted_apy_sum_same_grid(gw, m2w, s.take(g.size_assets as int));
}

/// Updating the ticks under a split that selects an asset at a tick with no
/// liquidity is refused: the decay of that tick cannot be shared.
pub proof fn law_empty_selected_tick_is_refused(m: MarketModel, te: i64, s: Seq<(u64, u64, u64)>, i: int)
    requires
        0 <= i < m.size_assets,
        i < s.len(),
        s[i].1 > 0,
        s[i].0 < ORDERBOOK_SIZE,
        m.assets[i].slots[s[i].0 as int] == 0,
    ensures
        m.looper_update_fails(te, s),
{
    assert(m.slot_update_fails(te, s, i, s[i].0 as int));
}

} // verus!
