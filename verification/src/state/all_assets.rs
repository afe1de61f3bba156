use vstd::prelude::*;
use crate::errors::ErrorCode;
use crate::pubkey::Pubkey;
use crate::state::model::{
    AssetModel, BookModel, MarketModel, min_int, max_int, result_value, split_amount_sum,
    lemma_split_amount_sum_bound, lemma_split_amount_sum_update, lemma_split_amount_sum_zeros,
    lemma_split_amount_sum_take, lemma_split_amount_sum_take_le, lemma_weighted_apy_sum_take,
    lemma_split_entry_facts, split_change,
};
use crate::utility::update_multiplier;

verus! {

pub use crate::state::model::ORDERBOOK_SIZE;

/// Most assets a market can list.
pub const MAX_ASSETS: u64 = 2;

/// Length of the asset array (equal to `MAX_ASSETS`).
pub const ASSET_CAPACITY: usize = 2;

/// The orderbook of one asset. Index `i` of each array is the tick whose APY
/// is `start_apy + i * apy_tick`.
#[derive(Clone, Copy, Debug)]
pub struct Orderbook {
    pub slots: [u64; ORDERBOOK_SIZE],
    pub looper_multiplier: [u64; ORDERBOOK_SIZE],
    /// When several positions share the last selected tick, their leverage is
    /// split among them through this multiplier.
    pub low_position_decay: [u64; ORDERBOOK_SIZE],
}

/// A listed asset.
#[derive(Clone, Copy, Debug)]
pub struct AssetInfo {
    pub mint: Pubkey,
    /// Leverage granted to the positions in this asset.
    pub leverage: u64,
    pub orderbook: Orderbook,
}

/// The state of a market.
#[derive(Clone, Copy, Debug)]
pub struct AllAssets {
    /// Mint of the underlying asset; identifies the market.
    pub base_asset: Pubkey,
    /// Number of listed assets; `assets` is filled up to this index.
    pub size_assets: u64,
    pub assets: [AssetInfo; ASSET_CAPACITY],
    /// APY of the lowest tick (100% is `VALUE_100_PERCENT_APY`).
    pub start_apy: u64,
    /// APY step between two ticks.
    pub apy_tick: u64,
    /// Total amount deposited by lenders, interest included.
    pub amount: u64,
    /// Grows with the interest accrued to lenders.
    pub lender_multiplier: u64,
    pub last_update_timestamp: i64,
    pub current_apy: u64,
}

impl View for AssetInfo {
    type V = AssetModel;

    open spec fn view(&self) -> AssetModel {
        AssetModel {
            mint: self.mint,
            leverage: self.leverage,
            slots: self.orderbook.slots@,
            looper_multiplier: self.orderbook.looper_multiplier@,
            low_position_decay: self.orderbook.low_position_decay@,
        }
    }
}

impl View for AllAssets {
    type V = MarketModel;

    open spec fn view(&self) -> MarketModel {
        MarketModel {
            base_asset: self.base_asset,
            size_assets: self.size_assets,
            assets: self.assets@.map_values(|a: AssetInfo| a@),
            start_apy: self.start_apy,
            apy_tick: self.apy_tick,
            amount: self.amount,
            lender_multiplier: self.lender_multiplier,
            last_update_timestamp: self.last_update_timestamp,
            current_apy: self.current_apy,
        }
    }
}

/// What the split loop knows of the entry of asset `i` once the ticks from `j`
/// up are done.
pub open spec fn split_entry_upto(
    m: BookModel,
    a: int,
    i: int,
    j: int,
    e: (u64, u64, u64),
) -> bool {
    &&& e.1 == m.asset_taken_from(a, i, j)
    &&& e.1 == 0 ==> e == (0u64, 0u64, 0u64)
    &&& e.1 > 0 ==> e.0 == m.lowest_taken_tick_from(a, i, j) && e.2 == m.taken(a, i, e.0 as int)
}

impl AllAssets {
    /// The split of `amount` over the best bids of the books.
    pub fn split_for_amount(&self, amount: u64) -> (r: Vec<(u64, u64, u64)>)
        requires
            self.size_assets <= MAX_ASSETS,
        ensures
            r@ == self@.split(amount as int),
            split_amount_sum(r@) == min_int(amount as int, self@.book_liquidity()),
    {
        let ghost m = self@;
        let n = self.size_assets as usize;
        let mut result: Vec<(u64, u64, u64)> = Vec::new();
        let mut k: usize = 0;
        while k < n
            invariant
                k <= n,
                result@ =~= Seq::new(k as nat, |i: int| (0u64, 0u64, 0u64)),
            decreases n - k,
        {
            result.push((0, 0, 0));
            k += 1;
        }
        proof {
            lemma_split_amount_sum_zeros(n as nat);
        }
        let mut remaining: u64 = amount;
        let mut j: usize = ORDERBOOK_SIZE;
        while j > 0
            invariant
                m == self@,
                n == self.size_assets,
                n <= 2,
                j <= ORDERBOOK_SIZE,
                result.len() == n,
                remaining == max_int(0, amount - m.book().liquidity_above(j - 1)),
                forall|i: int| 0 <= i < n ==> split_entry_upto(m.book(), amount as int, i, j as int, #[trigger] result@[i]),
                split_amount_sum(result@) + remaining == amount,
            decreases j,
        {
            j -= 1;
            let mut i: usize = 0;
            while i < n
                invariant
                    m == self@,
                    n == self.size_assets,
                    n <= 2,
                    j < ORDERBOOK_SIZE,
                    i <= n,
                    result.len() == n,
                    remaining == max_int(0, amount - m.book().before(i as int, j as int)),
                    forall|k: int| 0 <= k < i ==> split_entry_upto(m.book(), amount as int, k, j as int, #[trigger] result@[k]),
                    forall|k: int| i <= k < n ==> split_entry_upto(m.book(), amount as int, k, j + 1, #[trigger] result@[k]),
                    split_amount_sum(result@) + remaining == amount,
                decreases n - i,
            {
                let slot = self.assets[i].orderbook.slots[j];
                assert(slot == m.book().cell(i as int, j as int));
                let take = if slot < remaining { slot } else { remaining };
                assert(take == m.book().taken(amount as int, i as int, j as int));
                if take > 0 {
                    let (_, acc, _) = result[i];
                    proof {
                        lemma_split_amount_sum_bound(result@, i as int);
                    }
                    let ghost old_result = result@;
                    result.set(i, (j as u64, acc + take, take));
                    proof {
                        lemma_split_amount_sum_update(old_result, i as int, (j as u64, (acc + take) as u64, take));
                    }
                }
                remaining = remaining - take;
                i += 1;
            }
        }
        assert(result@ =~= m.split(amount as int));
        result
    }

    /// For each asset that `current_split` selects, makes every tick from the
    /// lowest selected tick up earn, for `time_elapsed` seconds, the APY of
    /// that lowest tick (the price the asset's selected bids pay); and scales
    /// the decay of that lowest tick by the share of its liquidity the split
    /// takes. Refused with `NumErr`, and nothing changes, when one of these
    /// updates overflows.
    pub fn update_looper_multiplier(
        &mut self,
        time_elapsed: i64,
        current_split: &Vec<(u64, u64, u64)>,
    ) -> (r: Result<(), ErrorCode>)
        requires
            old(self).size_assets <= MAX_ASSETS,
            current_split.len() >= old(self).size_assets,
            old(self)@.looper_update_defined(time_elapsed, current_split@),
        ensures
            !old(self)@.looper_update_fails(time_elapsed, current_split@) ==> r is Ok && final(self)@
                == old(self)@.with_looper_update(time_elapsed, current_split@),
            old(self)@.looper_update_fails(time_elapsed, current_split@) ==> r == Err::<(), ErrorCode>(
                ErrorCode::NumErr,
            ) && *final(self) == *old(self),
    {
        let ghost m = self@;
        let ghost s = current_split@;
        let ghost target = m.with_looper_update(time_elapsed, s);
        let mut next = *self;
        let n = self.size_assets as usize;
        let mut i: usize = 0;
        assert(next@ =~= (MarketModel { assets: next@.assets, ..m }));
        while i < n
            invariant
                m == self@,
                s == current_split@,
                target == m.with_looper_update(time_elapsed, s),
                n == self.size_assets,
                n <= 2,
                i <= n,
                current_split.len() >= n,
                m.looper_update_defined(time_elapsed, s),
                next@ == (MarketModel { assets: next@.assets, ..m }),
                forall|k: int| 0 <= k < 2 ==> #[trigger] next.assets[k]@ == if k < i {
                    target.assets[k]
                } else {
                    m.assets[k]
                },
                forall|k: int, j: int|
                    0 <= k < i && 0 <= j < ORDERBOOK_SIZE ==> !#[trigger] m.slot_update_fails(
                        time_elapsed,
                        s,
                        k,
                        j,
                    ),
            decreases n - i,
        {
            let (tick, amount, last_liquidity) = current_split[i];
            if amount > 0 {
                assert(m.selected(s, i as int));
                assert(!m.earlier_asset_fails(time_elapsed, s, i as int));
                let apy = self.start_apy + tick * self.apy_tick;
                let tick_index = tick as usize;
                let mut j: usize = tick_index;
                while j < ORDERBOOK_SIZE
                    invariant
                        m == self@,
                        s == current_split@,
                        target == m.with_looper_update(time_elapsed, s),
                        n == self.size_assets,
                        i < n,
                        n <= 2,
                        current_split.len() >= n,
                        s[i as int] == (tick, amount, last_liquidity),
                        amount > 0,
                        tick_index == tick,
                        tick_index < ORDERBOOK_SIZE,
                        tick_index <= j <= ORDERBOOK_SIZE,
                        apy == m.tick_apy(tick as int),
                        next@ == (MarketModel { assets: next@.assets, ..m }),
                        forall|k: int| 0 <= k < 2 && k != i ==> #[trigger] next.assets[k]@ == if k < i {
                            target.assets[k]
                        } else {
                            m.assets[k]
                        },
                        next.assets[i as int]@ == (AssetModel {
                            looper_multiplier: next.assets[i as int]@.looper_multiplier,
                            ..m.assets[i as int]
                        }),
                        forall|q: int| 0 <= q < ORDERBOOK_SIZE ==>
                            #[trigger] next.assets[i as int]@.looper_multiplier[q] == if tick_index <= q < j {
                                target.assets[i as int].looper_multiplier[q]
                            } else {
                                m.assets[i as int].looper_multiplier[q]
                            },
                        forall|q: int| tick_index <= q < j ==>
                            #[trigger] m.accrued_looper_multiplier(time_elapsed, s, i as int, q) is Ok,
                    decreases ORDERBOOK_SIZE - j,
                {
                    let current = next.assets[i].orderbook.looper_multiplier[j];
                    assert(current == m.assets[i as int].looper_multiplier[j as int]);
                    match update_multiplier(apy, time_elapsed, current) {
                        Ok(v) => {
                            next.assets[i].orderbook.looper_multiplier[j] = v;
                        },
                        Err(_) => {
                            assert(m.slot_update_fails(time_elapsed, s, i as int, j as int));
                            return Err(ErrorCode::NumErr);
                        },
                    }
                    j += 1;
                }
                let decay = next.assets[i].orderbook.low_position_decay[tick_index];
                let slot = next.assets[i].orderbook.slots[tick_index];
                let scaled = match decay.checked_mul(last_liquidity) {
                    Some(v) => v,
                    None => {
                        assert(m.slot_update_fails(time_elapsed, s, i as int, tick_index as int));
                        return Err(ErrorCode::NumErr);
                    },
                };
                let shared = match scaled.checked_div(slot) {
                    Some(v) => v,
                    None => {
                        assert(m.slot_update_fails(time_elapsed, s, i as int, tick_index as int));
                        return Err(ErrorCode::NumErr);
                    },
                };
                next.assets[i].orderbook.low_position_decay[tick_index] = shared;
                assert forall|q: int| 0 <= q < ORDERBOOK_SIZE implies !#[trigger] m.slot_update_fails(
                    time_elapsed,
                    s,
                    i as int,
                    q,
                ) by {
                    if q >= tick_index {
                        assert(m.accrued_looper_multiplier(time_elapsed, s, i as int, q) is Ok);
                    }
                }
                assert(next.assets[i as int]@.looper_multiplier =~= target.assets[i as int].looper_multiplier);
                assert(next.assets[i as int]@.low_position_decay =~= target.assets[i as int].low_position_decay);
                assert(next.assets[i as int]@ =~= target.assets[i as int]);
            } else {
                assert(target.assets[i as int].looper_multiplier =~= m.assets[i as int].looper_multiplier);
                assert(target.assets[i as int].low_position_decay =~= m.assets[i as int].low_position_decay);
                assert(target.assets[i as int] =~= m.assets[i as int]);
            }
            i += 1;
        }
        assert forall|k: int| n <= k < 2 implies #[trigger] target.assets[k] == m.assets[k] by {
            assert(target.assets[k].looper_multiplier =~= m.assets[k].looper_multiplier);
            assert(target.assets[k].low_position_decay =~= m.assets[k].low_position_decay);
            assert(target.assets[k] =~= m.assets[k]);
        }
        assert(next@.assets =~= target.assets);
        assert(next@ =~= target);
        *self = next;
        Ok(())
    }

    /// Sets the lenders' APY to the APY of the ticks selected in
    /// `current_split`, averaged by the amount each asset takes; leaves it
    /// as it is when the split takes nothing.
    pub fn update_apy(&mut self, current_split: &Vec<(u64, u64, u64)>) -> (r: Result<(), ErrorCode>)
        requires
            old(self).size_assets <= MAX_ASSETS,
            current_split.len() >= old(self).size_assets,
            split_amount_sum(current_split@) <= u64::MAX,
            forall|i: int|
                0 <= i < old(self).size_assets && #[trigger] current_split@[i].1 > 0 ==> old(self)@.tick_apy(
                    current_split@[i].0 as int,
                ) <= u64::MAX,
        ensures
            r is Ok,
            final(self)@ == (MarketModel { current_apy: old(self)@.apy_after(current_split@), ..old(self)@ }),
    {
        let ghost m = self@;
        let ghost s = current_split@;
        let len = current_split.len();
        let mut total_liquidity: u64 = 0;
        let mut k: usize = 0;
        while k < len
            invariant
                s == current_split@,
                len == s.len(),
                len == current_split.len(),
                k <= len,
                split_amount_sum(s) <= u64::MAX,
                total_liquidity == split_amount_sum(s.take(k as int)),
            decreases len - k,
        {
            proof {
                lemma_split_amount_sum_take(s, k as int);
                lemma_split_amount_sum_take_le(s, k as int + 1);
            }
            total_liquidity = total_liquidity + current_split[k].1;
            k += 1;
        }
        assert(s.take(len as int) =~= s);
        if total_liquidity > 0 {
            let n = self.size_assets as usize;
            let mut new_apy: u128 = 0;
            let mut i: usize = 0;
            while i < n
                invariant
                    m == self@,
                    s == current_split@,
                    n == self.size_assets,
                    n <= len,
                    len == current_split.len(),
                    i <= n,
                    forall|q: int|
                        0 <= q < n && #[trigger] s[q].1 > 0 ==> m.tick_apy(s[q].0 as int) <= u64::MAX,
                    split_amount_sum(s) <= u64::MAX,
                    new_apy == m.weighted_apy_sum(s.take(i as int)),
                    new_apy <= u64::MAX * split_amount_sum(s.take(i as int)),
                    split_amount_sum(s.take(i as int)) >= 0,
                decreases n - i,
            {
                let (tick_index, amount, _last_liquidity) = current_split[i];
                proof {
                    lemma_split_amount_sum_take(s, i as int);
                    lemma_weighted_apy_sum_take(m, s, i as int);
                }
                if amount > 0 {
                    let apy = self.start_apy + tick_index * self.apy_tick;
                    assert((apy as int) * (amount as int) <= u64::MAX * u64::MAX) by (nonlinear_arith)
                        requires
                            apy <= u64::MAX,
                            amount <= u64::MAX,
                    ;
                    proof {
                        lemma_split_amount_sum_take_le(s, i as int + 1);
                    }
                    let product = (apy as u128) * (amount as u128);
                    assert(product <= u64::MAX * amount) by (nonlinear_arith)
                        requires
                            product == apy * amount,
                            apy <= u64::MAX,
                    ;
                    assert(new_apy + product <= u64::MAX * (split_amount_sum(s.take(i as int)) + amount))
                        by (nonlinear_arith)
                        requires
                            new_apy <= u64::MAX * split_amount_sum(s.take(i as int)),
                            product <= u64::MAX * amount,
                    ;
                    assert(u64::MAX * (split_amount_sum(s.take(i as int)) + amount) <= u64::MAX * u64::MAX)
                        by (nonlinear_arith)
                        requires
                            split_amount_sum(s.take(i as int)) + amount <= u64::MAX,
                            0 <= split_amount_sum(s.take(i as int)) + amount,
                    ;
                    proof {
                        lemma_split_amount_sum_take_le(s, i as int + 1);
                    }
                    new_apy = match new_apy.checked_add(product) {
                        Some(v) => v,
                        None => {
                            return Err(ErrorCode::NumErr);
                        },
                    };
                }
                i += 1;
            }
            proof {
                lemma_split_amount_sum_take_le(s, n as int);
            }
            assert((new_apy as int) / (total_liquidity as int) <= u64::MAX) by (nonlinear_arith)
                requires
                    new_apy <= u64::MAX * split_amount_sum(s.take(n as int)),
                    split_amount_sum(s.take(n as int)) <= total_liquidity,
                    0 <= split_amount_sum(s.take(n as int)),
                    total_liquidity > 0,
            ;
            let average = new_apy / (total_liquidity as u128);
            self.current_apy = average as u64;
        }
        assert(self@ =~= (MarketModel { current_apy: m.apy_after(s), ..m }));
        Ok(())
    }

    /// Accrues interest up to `current_timestamp`: grows the lenders' amount
    /// and multiplier by the current APY over the time elapsed since the last
    /// update (when positive), then updates the ticks' multipliers and decays
    /// and the lenders' APY from the split of the lenders' amount. Refused, and
    /// nothing changes, when the elapsed time or an update overflows.
    pub fn update_timestamp_and_multiplier(&mut self, current_timestamp: i64) -> (r: Result<
        (),
        ErrorCode,
    >)
        requires
            old(self)@.accrual_defined(current_timestamp),
        ensures
            match old(self)@.accrue(current_timestamp) {
                Ok(m) => r is Ok && final(self)@ == m,
                Err(e) => r == Err::<(), ErrorCode>(e) && *final(self) == *old(self),
            },
    {
        let ghost m = self@;
        let time_elapsed = match current_timestamp.checked_sub(self.last_update_timestamp) {
            Some(t) => t,
            None => {
                return Err(ErrorCode::NumErr);
            },
        };
        let mut next = *self;
        if time_elapsed > 0 {
            next.amount = update_multiplier(self.current_apy, time_elapsed, self.amount)?;
            next.lender_multiplier = update_multiplier(
                self.current_apy,
                time_elapsed,
                self.lender_multiplier,
            )?;
            next.last_update_timestamp = current_timestamp;
        }
        let ghost grown = next@;
        assert(m.grow(current_timestamp) == Ok::<(i64, MarketModel), ErrorCode>((time_elapsed, grown)));
        let current_split = next.split_for_amount(next.amount);
        match next.update_looper_multiplier(time_elapsed, &current_split) {
            Ok(()) => {},
            Err(e) => {
                return Err(e);
            },
        }
        proof {
            let s = current_split@;
            assert forall|i: int|
                0 <= i < next.size_assets && #[trigger] current_split@[i].1 > 0 implies next@.tick_apy(
                current_split@[i].0 as int,
            ) <= u64::MAX by {
                assert(grown.selected(s, i));
                if grown.earlier_asset_fails(time_elapsed, s, i) {
                    let (k, j) = choose|k: int, j: int|
                        0 <= k < i && 0 <= j < ORDERBOOK_SIZE && #[trigger] grown.slot_update_fails(
                            time_elapsed,
                            s,
                            k,
                            j,
                        );
                    assert(grown.slot_update_fails(time_elapsed, s, k, j));
                    assert(grown.looper_update_fails(time_elapsed, s));
                }
            }
        }
        match next.update_apy(&current_split) {
            Ok(()) => {},
            Err(e) => {
                return Err(e);
            },
        }
        *self = next;
        Ok(())
    }

    /// The best APY offered in the books, with the asset offering it and the
    /// liquidity at that tick: each asset offers the APY of its highest tick
    /// with liquidity, and at equal APY the asset with the lower index wins.
    /// Refused with `NoLiquidityAvailable` when no book has liquidity.
    pub fn current_best_apy(&self) -> (r: Result<(u64, usize, u64), ErrorCode>)
        requires
            self.size_assets <= MAX_ASSETS,
            self@.best_ticks_fit(),
        ensures
            r == self@.best_offer(),
    {
        let ghost m = self@;
        let mut best_offer: Option<(u64, usize, u64)> = None;
        let n = self.size_assets as usize;
        let mut i: usize = 0;
        while i < n
            invariant
                m == self@,
                n == self.size_assets,
                n <= 2,
                i <= n,
                m.best_ticks_fit(),
                match best_offer {
                    None => m.best_offer_upto(i as int) < 0,
                    Some((apy, index, liquidity)) => {
                        let h = m.highest_tick_upto(index as int, ORDERBOOK_SIZE - 1);
                        &&& index == m.best_offer_upto(i as int)
                        &&& 0 <= index < i
                        &&& h >= 0
                        &&& apy == m.tick_apy(h)
                        &&& liquidity == m.book().cell(index as int, h)
                    },
                },
            decreases n - i,
        {
            let mut j: usize = ORDERBOOK_SIZE;
            let mut found = false;
            while j > 0 && !found
                invariant
                    m == self@,
                    i < n,
                    n <= 2,
                    n == self.size_assets,
                    j <= ORDERBOOK_SIZE,
                    !found ==> m.highest_tick_upto(i as int, ORDERBOOK_SIZE - 1) == m.highest_tick_upto(
                        i as int,
                        j - 1,
                    ),
                    found ==> j < ORDERBOOK_SIZE && m.highest_tick_upto(i as int, ORDERBOOK_SIZE - 1) == j,
                decreases j,
            {
                j -= 1;
                if self.assets[i].orderbook.slots[j] > 0 {
                    found = true;
                }
            }
            if found {
                let liquidity = self.assets[i].orderbook.slots[j];
                assert(m.highest_tick_upto(i as int, ORDERBOOK_SIZE - 1) >= 0);
                let current_apy = self.start_apy + (j as u64) * self.apy_tick;
                match best_offer {
                    Some((best_apy_so_far, _, _)) => {
                        if current_apy > best_apy_so_far {
                            best_offer = Some((current_apy, i, liquidity));
                        }
                    },
                    None => {
                        best_offer = Some((current_apy, i, liquidity));
                    },
                }
            }
            i += 1;
        }
        match best_offer {
            Some(offer) => Ok(offer),
            None => Err(ErrorCode::NoLiquidityAvailable),
        }
    }

    /// Per asset, the tick and the change of amount from the split of
    /// `before` to the split of `after`.
    fn split_difference(before: &Vec<(u64, u64, u64)>, after: &Vec<(u64, u64, u64)>) -> (r: Vec<
        (u64, i128),
    >)
        requires
            before.len() == after.len(),
        ensures
            r@ == split_change(before@, after@),
    {
        let mut result: Vec<(u64, i128)> = Vec::new();
        let mut i: usize = 0;
        while i < after.len()
            invariant
                before.len() == after.len(),
                i <= after.len(),
                result@ =~= split_change(before@, after@).take(i as int),
            decreases after.len() - i,
        {
            let (tick_index, new_amount, _) = after[i];
            let (_, old_amount, _) = before[i];
            result.push((tick_index, (new_amount as i128) - (old_amount as i128)));
            i += 1;
        }
        assert(split_change(before@, after@).take(after.len() as int) =~= split_change(before@, after@));
        result
    }

    /// The changes to apply to each asset's share of the lenders' funds when
    /// the lenders' amount (already split) grows by `delta` (`sign` true) or
    /// shrinks by it: for each listed asset, its lowest tick and its change of
    /// amount, so that the split of the new amount is the split of the
    /// current one plus these changes. Refused with `NumErr` when the new
    /// amount leaves the range of `u64`.
    pub fn delta_split_lender(&self, delta: u64, sign: bool) -> (r: Result<Vec<(u64, i128)>, ErrorCode>)
        requires
            self.size_assets <= MAX_ASSETS,
        ensures
            match self@.lender_delta(delta, sign) {
                Ok(d) => r matches Ok(v) && v@ == d,
                Err(e) => r == Err::<Vec<(u64, i128)>, ErrorCode>(e),
            },
    {
        let target = if sign {
            self.amount.checked_add(delta)
        } else {
            self.amount.checked_sub(delta)
        };
        let target = match target {
            Some(t) => t,
            None => {
                return Err(ErrorCode::NumErr);
            },
        };
        let current_split = self.split_for_amount(self.amount);
        let new_split = self.split_for_amount(target);
        Ok(Self::split_difference(&current_split, &new_split))
    }

    /// The changes to apply to each asset's share of the lenders' funds when
    /// the liquidity of slot (`asset_index`, `slot_index`) grows by `delta`
    /// (`sign` true) or shrinks by it. Refused with `InvalidAssetIndex` or
    /// `InvalidSlotIndex` for a slot outside the books, and with `NumErr` when
    /// the slot's new liquidity leaves the range of `u64`.
    pub fn delta_split_looper(&self, asset_index: usize, slot_index: usize, delta: u64, sign: bool) -> (r:
        Result<Vec<(u64, i128)>, ErrorCode>)
        requires
            self.size_assets <= MAX_ASSETS,
        ensures
            match self@.looper_delta(asset_index as int, slot_index as int, delta, sign) {
                Ok(d) => r matches Ok(v) && v@ == d,
                Err(e) => r == Err::<Vec<(u64, i128)>, ErrorCode>(e),
            },
    {
        if asset_index >= self.size_assets as usize {
            return Err(ErrorCode::InvalidAssetIndex);
        }
        if slot_index >= ORDERBOOK_SIZE {
            return Err(ErrorCode::InvalidSlotIndex);
        }
        let current = self.assets[asset_index].orderbook.slots[slot_index];
        let target = if sign {
            current.checked_add(delta)
        } else {
            current.checked_sub(delta)
        };
        let target = match target {
            Some(t) => t,
            None => {
                return Err(ErrorCode::NumErr);
            },
        };
        let mut changed = *self;
        changed.assets[asset_index].orderbook.slots[slot_index] = target;
        assert(changed@.book() =~~= self@.with_slot(asset_index as int, slot_index as int, target).book());
        let current_split = self.split_for_amount(self.amount);
        let new_split = changed.split_for_amount(self.amount);
        Ok(Self::split_difference(&current_split, &new_split))
    }

    /// The liquidity bid in all books of the market.
    pub fn total_liquidity(&self) -> (r: u128)
        requires
            self.size_assets <= MAX_ASSETS,
        ensures
            r == self@.book_liquidity(),
    {
        let ghost m = self@;
        let n = self.size_assets as usize;
        let mut total: u128 = 0;
        let mut j: usize = ORDERBOOK_SIZE;
        while j > 0
            invariant
                m == self@,
                n == self.size_assets,
                n <= 2,
                j <= ORDERBOOK_SIZE,
                total == m.book().liquidity_above(j - 1),
                total <= (ORDERBOOK_SIZE - j) * 2 * u64::MAX,
            decreases j,
        {
            j -= 1;
            let mut i: usize = 0;
            while i < n
                invariant
                    m == self@,
                    n == self.size_assets,
                    n <= 2,
                    j < ORDERBOOK_SIZE,
                    i <= n,
                    total == m.book().before(i as int, j as int),
                    total <= ((ORDERBOOK_SIZE - j - 1) * 2 + i) * u64::MAX,
                decreases n - i,
            {
                total = total + self.assets[i].orderbook.slots[j] as u128;
                i += 1;
            }
        }
        total
    }

    /// Whether accruing interest up to `now` is defined, i.e. whether
    /// `accrual_defined(now)` holds of the market: the accrual is walked
    /// through without changing anything, and `false` comes only where it
    /// would index past the asset array or compute a tick's APY that
    /// overflows a `u64`.
    pub fn can_accrue(&self, now: i64) -> (r: bool)
        ensures
            r == self@.accrual_defined(now),
    {
        let time_elapsed = match now.checked_sub(self.last_update_timestamp) {
            Some(t) => t,
            None => {
                return true;
            },
        };
        let mut grown = *self;
        if time_elapsed > 0 {
            grown.amount = match update_multiplier(self.current_apy, time_elapsed, self.amount) {
                Ok(v) => v,
                Err(_) => {
                    return true;
                },
            };
            grown.lender_multiplier = match update_multiplier(
                self.current_apy,
                time_elapsed,
                self.lender_multiplier,
            ) {
                Ok(v) => v,
                Err(_) => {
                    return true;
                },
            };
            grown.last_update_timestamp = now;
        }
        let ghost m = grown@;
        assert(self@.grow(now) == Ok::<(i64, MarketModel), ErrorCode>((time_elapsed, m)));
        if grown.size_assets > MAX_ASSETS {
            return false;
        }
        let split = grown.split_for_amount(grown.amount);
        let ghost s = split@;
        let n = grown.size_assets as usize;
        let mut i: usize = 0;
        while i < n
            invariant
                self@.grow(now) == Ok::<(i64, MarketModel), ErrorCode>((time_elapsed, m)),
                m == grown@,
                s == split@,
                s == m.split(m.amount as int),
                n == grown.size_assets,
                n <= 2,
                i <= n,
                split.len() == n,
                forall|k: int, j: int|
                    0 <= k < i && 0 <= j < ORDERBOOK_SIZE ==> !#[trigger] m.slot_update_fails(
                        time_elapsed,
                        s,
                        k,
                        j,
                    ),
                forall|k: int|
                    0 <= k < i && #[trigger] m.selected(s, k) ==> s[k].0 < ORDERBOOK_SIZE && m.tick_apy(
                        s[k].0 as int,
                    ) <= u64::MAX,
            decreases n - i,
        {
            let (tick, amount, last_liquidity) = split[i];
            if amount > 0 {
                proof {
                    lemma_split_entry_facts(m.book(), m.amount as int, i as int);
                }
                assert(m.selected(s, i as int));
                assert((tick as int) * (grown.apy_tick as int) <= 9 * u64::MAX) by (nonlinear_arith)
                    requires
                        tick < 10,
                        grown.apy_tick <= u64::MAX,
                ;
                if (grown.start_apy as u128) + (tick as u128) * (grown.apy_tick as u128) > u64::MAX as u128 {
                    assert(!m.earlier_asset_fails(time_elapsed, s, i as int));
                    assert(m.tick_apy(s[i as int].0 as int) > u64::MAX);
                    assert(!m.looper_update_defined(time_elapsed, s));
                    return false;
                }
                let apy = grown.start_apy + tick * grown.apy_tick;
                let tick_index = tick as usize;
                let mut j: usize = tick_index;
                while j < ORDERBOOK_SIZE
                    invariant
                        self@.grow(now) == Ok::<(i64, MarketModel), ErrorCode>((time_elapsed, m)),
                        m == grown@,
                        s == split@,
                        s == m.split(m.amount as int),
                        n == grown.size_assets,
                        i < n,
                        n <= 2,
                        split.len() == n,
                        s[i as int] == (tick, amount, last_liquidity),
                        amount > 0,
                        m.selected(s, i as int),
                        tick_index == tick,
                        tick_index < ORDERBOOK_SIZE,
                        tick_index <= j <= ORDERBOOK_SIZE,
                        apy == m.tick_apy(tick as int),
                        forall|k: int, q: int|
                            0 <= k < i && 0 <= q < ORDERBOOK_SIZE ==> !#[trigger] m.slot_update_fails(
                                time_elapsed,
                                s,
                                k,
                                q,
                            ),
                        forall|k: int|
                            0 <= k < i && #[trigger] m.selected(s, k) ==> s[k].0 < ORDERBOOK_SIZE
                                && m.tick_apy(s[k].0 as int) <= u64::MAX,
                        forall|q: int|
                            tick_index <= q < j ==> #[trigger] m.accrued_looper_multiplier(
                                time_elapsed,
                                s,
                                i as int,
                                q,
                            ) is Ok,
                    decreases ORDERBOOK_SIZE - j,
                {
                    let current = grown.assets[i].orderbook.looper_multiplier[j];
                    assert(current == m.assets[i as int].looper_multiplier[j as int]);
                    match update_multiplier(apy, time_elapsed, current) {
                        Ok(_) => {},
                        Err(_) => {
                            assert(m.slot_update_fails(time_elapsed, s, i as int, j as int));
                            assert forall|k: int|
                                #[trigger] m.selected(s, k) && !m.earlier_asset_fails(
                                    time_elapsed,
                                    s,
                                    k,
                                ) implies s[k].0 < ORDERBOOK_SIZE && m.tick_apy(s[k].0 as int) <= u64::MAX by {
                                if k > i {
                                    assert(m.slot_update_fails(time_elapsed, s, i as int, j as int));
                                }
                            }
                            return true;
                        },
                    }
                    j += 1;
                }
                let decay = grown.assets[i].orderbook.low_position_decay[tick_index];
                let slot = grown.assets[i].orderbook.slots[tick_index];
                let shared_fails = match decay.checked_mul(last_liquidity) {
                    Some(_) => slot == 0,
                    None => true,
                };
                if shared_fails {
                    assert(m.slot_update_fails(time_elapsed, s, i as int, tick_index as int));
                    assert forall|k: int|
                        #[trigger] m.selected(s, k) && !m.earlier_asset_fails(
                            time_elapsed,
                            s,
                            k,
                        ) implies s[k].0 < ORDERBOOK_SIZE && m.tick_apy(s[k].0 as int) <= u64::MAX by {
                        if k > i {
                            assert(m.slot_update_fails(time_elapsed, s, i as int, tick_index as int));
                        }
                    }
                    return true;
                }
                assert forall|q: int| 0 <= q < ORDERBOOK_SIZE implies !#[trigger] m.slot_update_fails(
                    time_elapsed,
                    s,
                    i as int,
                    q,
                ) by {
                    if q >= tick_index {
                        assert(m.accrued_looper_multiplier(time_elapsed, s, i as int, q) is Ok);
                    }
                }
            }
            i += 1;
        }
        true
    }

    /// Splits the lenders' `amount` over the orderbooks: the best APY first
    /// (at equal APY, the asset with the lower index first), each tick taken
    /// whole until what is left fits in it. Returns, for each listed asset, the
    /// lowest tick taken, the amount taken from the asset, and the amount taken
    /// at that lowest tick; `(0, 0, 0)` for an asset nothing is taken from.
    pub fn split_lenders_sol(&self) -> (r: Result<Vec<(u64, u64, u64)>, ErrorCode>)
        requires
            self.size_assets <= MAX_ASSETS,
        ensures
            r matches Ok(v) && v@ == self@.split(self.amount as int) && split_amount_sum(v@)
                == min_int(self.amount as int, self@.book_liquidity()),
    {
        Ok(self.split_for_amount(self.amount))
    }
}

} // verus!
