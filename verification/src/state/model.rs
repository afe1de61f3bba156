use vstd::prelude::*;
use crate::errors::ErrorCode;
use crate::pubkey::Pubkey;
use crate::utility::spec_update_multiplier;

verus! {

/// Number of ticks in each orderbook.
pub const ORDERBOOK_SIZE: usize = 10;

/// The abstract value of one listed asset and its orderbook.
#[verifier::ext_equal]
pub struct AssetModel {
    pub mint: Pubkey,
    pub leverage: u64,
    /// Liquidity bid at each tick.
    pub slots: Seq<u64>,
    /// Interest multiplier of each tick.
    pub looper_multiplier: Seq<u64>,
    /// Share multiplier of the positions of each tick.
    pub low_position_decay: Seq<u64>,
}

/// The abstract value of a market.
#[verifier::ext_equal]
pub struct MarketModel {
    pub base_asset: Pubkey,
    pub size_assets: u64,
    pub assets: Seq<AssetModel>,
    pub start_apy: u64,
    pub apy_tick: u64,
    pub amount: u64,
    pub lender_multiplier: u64,
    pub last_update_timestamp: i64,
    pub current_apy: u64,
}

pub open spec fn min_int(a: int, b: int) -> int {
    if a <= b { a } else { b }
}

pub open spec fn max_int(a: int, b: int) -> int {
    if a >= b { a } else { b }
}

impl MarketModel {
    /// The APY paid at tick `j`.
    pub open spec fn tick_apy(self, j: int) -> int {
        self.start_apy + j * self.apy_tick
    }

    /// The liquidity bid in the books of the market.
    pub open spec fn book(self) -> BookModel {
        BookModel {
            size_assets: self.size_assets,
            slots: Seq::new(self.assets.len(), |i: int| self.assets[i].slots),
        }
    }

    /// All liquidity of the market.
    pub open spec fn book_liquidity(self) -> int {
        self.book().book_liquidity()
    }

    /// The split of `a` over the listed assets.
    pub open spec fn split(self, a: int) -> Seq<(u64, u64, u64)> {
        self.book().split(a)
    }

    /// The market with the liquidity at slot (`i`, `j`) set to `v`.
    pub open spec fn with_slot(self, i: int, j: int, v: u64) -> MarketModel {
        MarketModel {
            assets: self.assets.update(
                i,
                AssetModel { slots: self.assets[i].slots.update(j, v), ..self.assets[i] },
            ),
            ..self
        }
    }
}

/// The liquidity bid in the books of a market: `slots[i][j]` is bid at tick
/// `j` of asset `i`; the assets from `size_assets` on are not listed.
#[verifier::ext_equal]
pub struct BookModel {
    pub size_assets: u64,
    pub slots: Seq<Seq<u64>>,
}

impl BookModel {
    /// Liquidity bid at tick `j` of listed asset `i`; zero anywhere else.
    pub open spec fn cell(self, i: int, j: int) -> int {
        if 0 <= i < self.size_assets && i < self.slots.len() && 0 <= j < ORDERBOOK_SIZE && j
            < self.slots[i].len() {
            self.slots[i][j] as int
        } else {
            0
        }
    }

    /// Liquidity at tick `j` of the assets below index `i`.
    pub open spec fn tick_prefix(self, j: int, i: int) -> int
        decreases i,
    {
        if i <= 0 {
            0
        } else {
            self.tick_prefix(j, i - 1) + self.cell(i - 1, j)
        }
    }

    /// Liquidity at tick `j` over all listed assets.
    pub open spec fn tick_total(self, j: int) -> int {
        self.tick_prefix(j, self.size_assets as int)
    }

    /// Liquidity at the ticks strictly above `j`.
    pub open spec fn liquidity_above(self, j: int) -> int
        decreases ORDERBOOK_SIZE - j,
    {
        if j >= ORDERBOOK_SIZE - 1 {
            0
        } else {
            self.tick_total(j + 1) + self.liquidity_above(j + 1)
        }
    }

    /// All liquidity of the market.
    pub open spec fn book_liquidity(self) -> int {
        self.liquidity_above(-1)
    }

    /// Liquidity served before slot (`i`, `j`): higher ticks come first, and at
    /// equal ticks the asset with the lower index.
    pub open spec fn before(self, i: int, j: int) -> int {
        self.liquidity_above(j) + self.tick_prefix(j, i)
    }

    /// What splitting `a` takes from slot (`i`, `j`): the slot's liquidity, or
    /// whatever the better slots left of `a`.
    pub open spec fn taken(self, a: int, i: int, j: int) -> int {
        min_int(self.cell(i, j), max_int(0, a - self.before(i, j)))
    }

    /// What splitting `a` takes from asset `i` at the ticks from `j` up.
    pub open spec fn asset_taken_from(self, a: int, i: int, j: int) -> int
        decreases ORDERBOOK_SIZE - j,
    {
        if j >= ORDERBOOK_SIZE {
            0
        } else {
            self.taken(a, i, j) + self.asset_taken_from(a, i, j + 1)
        }
    }

    /// The lowest tick from `j` up at which splitting `a` takes from asset `i`
    /// (`ORDERBOOK_SIZE` if none).
    pub open spec fn lowest_taken_tick_from(self, a: int, i: int, j: int) -> int
        decreases ORDERBOOK_SIZE - j,
    {
        if j >= ORDERBOOK_SIZE {
            ORDERBOOK_SIZE as int
        } else if self.taken(a, i, j) > 0 {
            j
        } else {
            self.lowest_taken_tick_from(a, i, j + 1)
        }
    }

    /// What splitting `a` takes from asset `i`.
    pub open spec fn asset_taken(self, a: int, i: int) -> int {
        self.asset_taken_from(a, i, 0)
    }

    /// The split of `a` for asset `i`: the lowest tick taken, the amount taken
    /// from the asset, and the amount taken at that tick; all zero when
    /// nothing is taken from the asset.
    pub open spec fn split_entry(self, a: int, i: int) -> (u64, u64, u64) {
        if self.asset_taken(a, i) == 0 {
            (0, 0, 0)
        } else {
            let t = self.lowest_taken_tick_from(a, i, 0);
            (t as u64, self.asset_taken(a, i) as u64, self.taken(a, i, t) as u64)
        }
    }

    /// The split of `a` over the listed assets.
    pub open spec fn split(self, a: int) -> Seq<(u64, u64, u64)> {
        Seq::new(self.size_assets as nat, |i: int| self.split_entry(a, i))
    }
}

/// The liquidity of `slots` from index `j` up.
pub open spec fn slots_sum_from(slots: Seq<u64>, j: int) -> int
    decreases slots.len() - j,
{
    if 0 <= j < slots.len() {
        slots[j] + slots_sum_from(slots, j + 1)
    } else {
        0
    }
}

/// The sum of the amounts of a split.
pub open spec fn split_amount_sum(s: Seq<(u64, u64, u64)>) -> int
    decreases s.len(),
{
    if s.len() == 0 {
        0
    } else {
        split_amount_sum(s.drop_last()) + s.last().1
    }
}

pub proof fn lemma_split_amount_sum_update(s: Seq<(u64, u64, u64)>, k: int, e: (u64, u64, u64))
    requires
        0 <= k < s.len(),
    ensures
        split_amount_sum(s.update(k, e)) == split_amount_sum(s) - s[k].1 + e.1,
    decreases s.len(),
{
    if k == s.len() - 1 {
        assert(s.update(k, e).drop_last() =~= s.drop_last());
    } else {
        lemma_split_amount_sum_update(s.drop_last(), k, e);
        assert(s.update(k, e).drop_last() =~= s.drop_last().update(k, e));
    }
}

pub proof fn lemma_split_amount_sum_bound(s: Seq<(u64, u64, u64)>, k: int)
    requires
        0 <= k < s.len(),
    ensures
        s[k].1 <= split_amount_sum(s),
        split_amount_sum(s) >= 0,
    decreases s.len(),
{
    lemma_split_amount_sum_nonneg(s.drop_last());
    if k < s.len() - 1 {
        lemma_split_amount_sum_bound(s.drop_last(), k);
    }
}

pub proof fn lemma_split_amount_sum_nonneg(s: Seq<(u64, u64, u64)>)
    ensures
        split_amount_sum(s) >= 0,
    decreases s.len(),
{
    if s.len() > 0 {
        lemma_split_amount_sum_nonneg(s.drop_last());
    }
}

pub proof fn lemma_split_amount_sum_zeros(n: nat)
    ensures
        split_amount_sum(Seq::new(n, |i: int| (0u64, 0u64, 0u64))) == 0,
    decreases n,
{
    if n > 0 {
        lemma_split_amount_sum_zeros((n - 1) as nat);
        assert(Seq::new(n, |i: int| (0u64, 0u64, 0u64)).drop_last() =~= Seq::new(
            (n - 1) as nat,
            |i: int| (0u64, 0u64, 0u64),
        ));
    }
}

/// The value held by a result, or zero for an error.
pub open spec fn result_value(r: Result<u64, ErrorCode>) -> u64 {
    match r {
        Ok(v) => v,
        Err(_) => 0,
    }
}

impl MarketModel {
    /// Whether split `s` gives lenders' funds to listed asset `i`.
    pub open spec fn selected(self, s: Seq<(u64, u64, u64)>, i: int) -> bool {
        0 <= i < self.size_assets && i < s.len() && s[i].1 > 0
    }

    /// The looper multiplier of slot (`i`, `j`) after `te` seconds under split
    /// `s`: the ticks of a selected asset from its lowest selected tick up all
    /// pay the APY of that lowest selected tick (the asset's clearing price);
    /// the others are left as they are.
    pub open spec fn accrued_looper_multiplier(
        self,
        te: i64,
        s: Seq<(u64, u64, u64)>,
        i: int,
        j: int,
    ) -> Result<u64, ErrorCode> {
        if self.selected(s, i) && s[i].0 <= j {
            spec_update_multiplier(
                self.tick_apy(s[i].0 as int) as u64,
                te,
                self.assets[i].looper_multiplier[j],
            )
        } else {
            Ok(self.assets[i].looper_multiplier[j])
        }
    }

    /// The low-position decay of slot (`i`, `j`) under split `s`: at the lowest
    /// selected tick of a selected asset it is scaled by the share of the tick's
    /// liquidity that the split takes; elsewhere it is left as it is.
    pub open spec fn shared_decay(self, s: Seq<(u64, u64, u64)>, i: int, j: int) -> Result<
        u64,
        ErrorCode,
    > {
        if self.selected(s, i) && j == s[i].0 {
            let product = self.assets[i].low_position_decay[j] * s[i].2;
            if product > u64::MAX || self.assets[i].slots[j] == 0 {
                Err(ErrorCode::NumErr)
            } else {
                Ok((product / (self.assets[i].slots[j] as int)) as u64)
            }
        } else {
            Ok(self.assets[i].low_position_decay[j])
        }
    }

    /// Whether updating slot (`i`, `j`) overflows.
    pub open spec fn slot_update_fails(self, te: i64, s: Seq<(u64, u64, u64)>, i: int, j: int) -> bool {
        self.accrued_looper_multiplier(te, s, i, j) is Err || self.shared_decay(s, i, j) is Err
    }

    /// Whether updating some slot of a listed asset overflows.
    pub open spec fn looper_update_fails(self, te: i64, s: Seq<(u64, u64, u64)>) -> bool {
        exists|i: int, j: int|
            0 <= i < self.size_assets && 0 <= j < ORDERBOOK_SIZE && #[trigger] self.slot_update_fails(
                te,
                s,
                i,
                j,
            )
    }

    /// Whether updating some slot of a listed asset below index `i` overflows.
    pub open spec fn earlier_asset_fails(self, te: i64, s: Seq<(u64, u64, u64)>, i: int) -> bool {
        exists|k: int, j: int|
            0 <= k < i && 0 <= j < ORDERBOOK_SIZE && #[trigger] self.slot_update_fails(te, s, k, j)
    }

    /// Updating the multipliers and decays under split `s` panics nowhere:
    /// each selected asset whose update is reached (no earlier asset's update
    /// overflowed) names a tick of the book whose APY fits a `u64`.
    pub open spec fn looper_update_defined(self, te: i64, s: Seq<(u64, u64, u64)>) -> bool {
        forall|i: int|
            #[trigger] self.selected(s, i) && !self.earlier_asset_fails(te, s, i) ==> s[i].0
                < ORDERBOOK_SIZE && self.tick_apy(s[i].0 as int) <= u64::MAX
    }

    /// The market with the multipliers and decays of every slot updated for
    /// `te` seconds under split `s`.
    pub open spec fn with_looper_update(self, te: i64, s: Seq<(u64, u64, u64)>) -> MarketModel {
        MarketModel {
            assets: Seq::new(
                self.assets.len(),
                |i: int|
                    AssetModel {
                        looper_multiplier: Seq::new(
                            self.assets[i].looper_multiplier.len(),
                            |j: int| result_value(self.accrued_looper_multiplier(te, s, i, j)),
                        ),
                        low_position_decay: Seq::new(
                            self.assets[i].low_position_decay.len(),
                            |j: int| result_value(self.shared_decay(s, i, j)),
                        ),
                        ..self.assets[i]
                    },
            ),
            ..self
        }
    }

    /// The sum over the selected entries of `s` of their tick's APY times
    /// their amount.
    pub open spec fn weighted_apy_sum(self, s: Seq<(u64, u64, u64)>) -> int
        decreases s.len(),
    {
        if s.len() == 0 {
            0
        } else {
            self.weighted_apy_sum(s.drop_last()) + if s.last().1 > 0 {
                self.tick_apy(s.last().0 as int) * s.last().1
            } else {
                0
            }
        }
    }

    /// The lenders' APY under split `s`: the APY of the selected ticks averaged
    /// by the amount taken; unchanged when the split takes nothing.
    pub open spec fn apy_after(self, s: Seq<(u64, u64, u64)>) -> u64 {
        let total = split_amount_sum(s);
        if total > 0 {
            (self.weighted_apy_sum(s.take(self.size_assets as int)) / total) as u64
        } else {
            self.current_apy
        }
    }

    /// The first step of accrual: the elapsed time since the last update, and
    /// the market whose lenders' amount and multiplier grew by the current APY
    /// over that time (when it is positive). Refused with `NumErr` when the
    /// elapsed time or a growth overflows.
    pub open spec fn grow(self, now: i64) -> Result<(i64, MarketModel), ErrorCode> {
        let elapsed = now - self.last_update_timestamp;
        if elapsed < i64::MIN || elapsed > i64::MAX {
            Err(ErrorCode::NumErr)
        } else {
            let te = elapsed as i64;
            if te > 0 {
                match spec_update_multiplier(self.current_apy, te, self.amount) {
                    Err(e) => Err(e),
                    Ok(amount) => match spec_update_multiplier(
                        self.current_apy,
                        te,
                        self.lender_multiplier,
                    ) {
                        Err(e) => Err(e),
                        Ok(lender_multiplier) => Ok(
                            (
                                te,
                                MarketModel {
                                    amount,
                                    lender_multiplier,
                                    last_update_timestamp: now,
                                    ..self
                                },
                            ),
                        ),
                    },
                }
            } else {
                Ok((te, self))
            }
        }
    }

    /// The state reached by accruing interest up to `now`: lenders' amount and
    /// multiplier grow by the current APY over the elapsed time (when it is
    /// positive), then the split of the lenders' amount decides which ticks
    /// earn interest, at which price, and which decays are shared, and the
    /// lenders' APY is recomputed from that split.
    pub open spec fn accrue(self, now: i64) -> Result<MarketModel, ErrorCode> {
        match self.grow(now) {
            Err(e) => Err(e),
            Ok((te, m)) => {
                let s = m.split(m.amount as int);
                if m.looper_update_fails(te, s) {
                    Err(ErrorCode::NumErr)
                } else {
                    let m2 = m.with_looper_update(te, s);
                    Ok(MarketModel { current_apy: m2.apy_after(s), ..m2 })
                }
            },
        }
    }

    /// Accruing interest up to `now` panics nowhere: when the growth step
    /// succeeds, the asset array holds the listed assets and the update of
    /// the multipliers is defined.
    pub open spec fn accrual_defined(self, now: i64) -> bool {
        match self.grow(now) {
            Err(_) => true,
            Ok((te, m)) => m.size_assets <= 2 && m.looper_update_defined(te, m.split(m.amount as int)),
        }
    }
}

pub proof fn lemma_split_amount_sum_take(s: Seq<(u64, u64, u64)>, k: int)
    requires
        0 <= k < s.len(),
    ensures
        split_amount_sum(s.take(k + 1)) == split_amount_sum(s.take(k)) + s[k].1,
{
    assert(s.take(k + 1).drop_last() =~= s.take(k));
}

pub proof fn lemma_split_amount_sum_take_le(s: Seq<(u64, u64, u64)>, k: int)
    requires
        0 <= k <= s.len(),
    ensures
        split_amount_sum(s.take(k)) <= split_amount_sum(s),
    decreases s.len(),
{
    if k == s.len() {
        assert(s.take(k) =~= s);
    } else {
        lemma_split_amount_sum_take_le(s.drop_last(), k);
        assert(s.drop_last().take(k) =~= s.take(k));
    }
}

pub proof fn lemma_weighted_apy_sum_take(m: MarketModel, s: Seq<(u64, u64, u64)>, k: int)
    requires
        0 <= k < s.len(),
    ensures
        m.weighted_apy_sum(s.take(k + 1)) == m.weighted_apy_sum(s.take(k)) + if s[k].1 > 0 {
            m.tick_apy(s[k].0 as int) * s[k].1
        } else {
            0
        },
{
    assert(s.take(k + 1).drop_last() =~= s.take(k));
}

pub proof fn lemma_tick_prefix_nonneg(m: BookModel, j: int, i: int)
    ensures
        m.tick_prefix(j, i) >= 0,
    decreases i,
{
    if i > 0 {
        lemma_tick_prefix_nonneg(m, j, i - 1);
    }
}

pub proof fn lemma_tick_prefix_mono(m: BookModel, j: int, i1: int, i2: int)
    requires
        i1 <= i2,
    ensures
        m.tick_prefix(j, i1) <= m.tick_prefix(j, i2),
    decreases i2 - i1,
{
    if i1 < i2 {
        lemma_tick_prefix_mono(m, j, i1, i2 - 1);
    }
}

pub proof fn lemma_liquidity_above_nonneg(m: BookModel, j: int)
    ensures
        m.liquidity_above(j) >= 0,
    decreases ORDERBOOK_SIZE - j,
{
    if j < ORDERBOOK_SIZE - 1 {
        lemma_liquidity_above_nonneg(m, j + 1);
        lemma_tick_prefix_nonneg(m, j + 1, m.size_assets as int);
    }
}

/// For `j1 < j2 < ORDERBOOK_SIZE`, the liquidity above `j1` holds all of
/// tick `j2` and what lies above it.
pub proof fn lemma_liquidity_above_covers(m: BookModel, j1: int, j2: int)
    requires
        j1 < j2 < ORDERBOOK_SIZE,
    ensures
        m.liquidity_above(j1) >= m.tick_total(j2) + m.liquidity_above(j2),
    decreases j2 - j1,
{
    if j1 + 1 < j2 {
        lemma_liquidity_above_covers(m, j1 + 1, j2);
        lemma_tick_prefix_nonneg(m, j1 + 1, m.size_assets as int);
    }
}

/// A slot's liquidity counts in the market's liquidity.
pub proof fn lemma_cell_le_book_liquidity(m: BookModel, i: int, j: int)
    requires
        0 <= i < m.size_assets,
        0 <= j < ORDERBOOK_SIZE,
    ensures
        m.cell(i, j) <= m.book_liquidity(),
{
    lemma_tick_prefix_nonneg(m, j, i);
    lemma_tick_prefix_mono(m, j, i + 1, m.size_assets as int);
    lemma_liquidity_above_nonneg(m, j);
    lemma_liquidity_above_covers(m, -1, j);
}

pub proof fn lemma_before_nonneg(m: BookModel, i: int, j: int)
    ensures
        m.before(i, j) >= 0,
{
    lemma_liquidity_above_nonneg(m, j);
    lemma_tick_prefix_nonneg(m, j, i);
}

/// When splitting `a` takes something from asset `i` at the ticks from `j`
/// up, the lowest such tick is a tick of the book at which it takes something.
pub proof fn lemma_lowest_taken_tick(m: BookModel, a: int, i: int, j: int)
    requires
        0 <= j,
        m.asset_taken_from(a, i, j) > 0,
    ensures
        j <= m.lowest_taken_tick_from(a, i, j) < ORDERBOOK_SIZE,
        m.taken(a, i, m.lowest_taken_tick_from(a, i, j)) > 0,
    decreases ORDERBOOK_SIZE - j,
{
    if j < ORDERBOOK_SIZE && m.taken(a, i, j) <= 0 {
        lemma_lowest_taken_tick(m, a, i, j + 1);
    }
}

/// A slot comes after every slot of a higher tick and every slot of a lower
/// asset index at the same tick: all their liquidity is served before it.
pub proof fn lemma_served_before(m: BookModel, i1: int, j1: int, i2: int, j2: int)
    requires
        0 <= i1 < m.size_assets,
        0 <= i2 < m.size_assets,
        0 <= j1 < ORDERBOOK_SIZE,
        0 <= j2 < ORDERBOOK_SIZE,
        j2 > j1 || (j2 == j1 && i2 < i1),
    ensures
        m.before(i2, j2) + m.cell(i2, j2) <= m.before(i1, j1),
{
    lemma_tick_prefix_nonneg(m, j1, i1);
    if j2 == j1 {
        lemma_tick_prefix_mono(m, j1, i2 + 1, i1);
    } else {
        lemma_liquidity_above_covers(m, j1, j2);
        lemma_tick_prefix_mono(m, j2, i2 + 1, m.size_assets as int);
    }
}

/// What splitting `a >= 0` takes from a listed asset at the ticks from `j` up
/// is never more than `a`, nor more than the liquidity served up to the end of
/// slot (`i`, `j`).
pub proof fn lemma_asset_taken_bound(m: BookModel, a: int, i: int, j: int)
    requires
        0 <= a,
        0 <= i < m.size_assets,
        0 <= j,
    ensures
        0 <= m.asset_taken_from(a, i, j) <= a,
        j < ORDERBOOK_SIZE ==> m.asset_taken_from(a, i, j) <= min_int(a, m.before(i, j) + m.cell(i, j)),
    decreases ORDERBOOK_SIZE - j,
{
    if j < ORDERBOOK_SIZE {
        lemma_asset_taken_bound(m, a, i, j + 1);
        lemma_before_nonneg(m, i, j);
        if j + 1 < ORDERBOOK_SIZE {
            lemma_served_before(m, i, j, i, j + 1);
        }
    }
}

/// The entry of a selected asset in a split names a tick of the book, takes
/// no more at that tick than its liquidity, and exists only when both the
/// amount split and the market's liquidity are positive.
pub proof fn lemma_split_entry_facts(m: BookModel, a: int, i: int)
    requires
        0 <= a <= u64::MAX,
        0 <= i < m.size_assets,
        m.split_entry(a, i).1 > 0,
    ensures
        m.split_entry(a, i).1 == m.asset_taken(a, i),
        m.split_entry(a, i).0 < ORDERBOOK_SIZE,
        0 < m.split_entry(a, i).2 <= m.cell(i, m.split_entry(a, i).0 as int),
        a > 0,
        m.book_liquidity() > 0,
{
    lemma_asset_taken_bound(m, a, i, 0);
    lemma_lowest_taken_tick(m, a, i, 0);
    let t = m.lowest_taken_tick_from(a, i, 0);
    lemma_before_nonneg(m, i, t);
    lemma_cell_le_book_liquidity(m, i, t);
}

/// Per asset, the tick of `after` and the change of amount from `before` to
/// `after`.
pub open spec fn split_change(before: Seq<(u64, u64, u64)>, after: Seq<(u64, u64, u64)>) -> Seq<
    (u64, i128),
> {
    Seq::new(after.len(), |i: int| (after[i].0, (after[i].1 - before[i].1) as i128))
}

impl MarketModel {
    /// Highest tick up to `j` at which listed asset `i` has liquidity; -1 if
    /// none.
    pub open spec fn highest_tick_upto(self, i: int, j: int) -> int
        decreases j + 1,
    {
        if j < 0 {
            -1
        } else if self.book().cell(i, j) > 0 {
            j
        } else {
            self.highest_tick_upto(i, j - 1)
        }
    }

    /// Among the first `k` listed assets, the one whose highest tick with
    /// liquidity pays the most (the first one at equal APY); -1 if none has
    /// liquidity.
    pub open spec fn best_offer_upto(self, k: int) -> int
        decreases k,
    {
        if k <= 0 {
            -1
        } else {
            let b = self.best_offer_upto(k - 1);
            let h = self.highest_tick_upto(k - 1, ORDERBOOK_SIZE - 1);
            if h < 0 {
                b
            } else if b < 0 {
                k - 1
            } else if self.tick_apy(h) > self.tick_apy(self.highest_tick_upto(b, ORDERBOOK_SIZE - 1)) {
                k - 1
            } else {
                b
            }
        }
    }

    /// The best APY offered, the asset that offers it, and the liquidity at
    /// that tick.
    pub open spec fn best_offer(self) -> Result<(u64, usize, u64), ErrorCode> {
        let b = self.best_offer_upto(self.size_assets as int);
        if b < 0 {
            Err(ErrorCode::NoLiquidityAvailable)
        } else {
            let h = self.highest_tick_upto(b, ORDERBOOK_SIZE - 1);
            Ok((self.tick_apy(h) as u64, b as usize, self.book().cell(b, h) as u64))
        }
    }

    /// The APY of the highest tick with liquidity of every listed asset fits a
    /// `u64`.
    pub open spec fn best_ticks_fit(self) -> bool {
        forall|i: int|
            0 <= i < self.size_assets && #[trigger] self.highest_tick_upto(i, ORDERBOOK_SIZE - 1) >= 0
                ==> self.tick_apy(self.highest_tick_upto(i, ORDERBOOK_SIZE - 1)) <= u64::MAX
    }

    /// How each asset's share of the lenders' funds changes when the lenders'
    /// amount grows (`sign`) or shrinks by `delta`.
    pub open spec fn lender_delta(self, delta: u64, sign: bool) -> Result<Seq<(u64, i128)>, ErrorCode> {
        let target = if sign {
            self.amount + delta
        } else {
            self.amount - delta
        };
        if target < 0 || target > u64::MAX {
            Err(ErrorCode::NumErr)
        } else {
            Ok(split_change(self.split(self.amount as int), self.split(target)))
        }
    }

    /// How each asset's share of the lenders' funds changes when the
    /// liquidity of slot (`asset_index`, `slot_index`) grows (`sign`) or
    /// shrinks by `delta`.
    pub open spec fn looper_delta(self, asset_index: int, slot_index: int, delta: u64, sign: bool) -> Result<
        Seq<(u64, i128)>,
        ErrorCode,
    > {
        if asset_index >= self.size_assets {
            Err(ErrorCode::InvalidAssetIndex)
        } else if slot_index >= ORDERBOOK_SIZE {
            Err(ErrorCode::InvalidSlotIndex)
        } else {
            let current = self.assets[asset_index].slots[slot_index];
            let target = if sign {
                current + delta
            } else {
                current - delta
            };
            if target < 0 || target > u64::MAX {
                Err(ErrorCode::NumErr)
            } else {
                Ok(
                    split_change(
                        self.split(self.amount as int),
                        self.with_slot(asset_index, slot_index, target as u64).split(self.amount as int),
                    ),
                )
            }
        }
    }
}

} // verus!
