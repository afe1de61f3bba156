use vstd::prelude::*;
use crate::constants::{SCALE_LEVERAGE, START_DECAY_VALUE, START_MULTIPLIER_VALUE};
use crate::errors::ErrorCode;
use crate::pubkey::Pubkey;
use crate::state::all_assets::{AllAssets, Orderbook, MAX_ASSETS, ORDERBOOK_SIZE};
use crate::state::model::{AssetModel, MarketModel};

verus! {

/// The market after listing `mint` with `leverage`: refused when the leverage
/// is not above 1x, when the market is full, or when the mint is listed
/// already (checked in that order); otherwise the asset takes the next free
/// place with an empty book, multipliers and decays at their start values.
pub open spec fn add_asset_outcome(m: MarketModel, mint: Pubkey, leverage: u64) -> Result<
    MarketModel,
    ErrorCode,
> {
    if leverage <= SCALE_LEVERAGE {
        Err(ErrorCode::InvalidLeverage)
    } else if m.size_assets >= MAX_ASSETS {
        Err(ErrorCode::AllAssetsIsFull)
    } else if exists|i: int| 0 <= i < m.size_assets && #[trigger] m.assets[i].mint == mint {
        Err(ErrorCode::AssetAlreadyInitialized)
    } else {
        Ok(
            MarketModel {
                size_assets: (m.size_assets + 1) as u64,
                assets: m.assets.update(
                    m.size_assets as int,
                    AssetModel {
                        mint,
                        leverage,
                        slots: Seq::new(ORDERBOOK_SIZE as nat, |j: int| 0u64),
                        looper_multiplier: Seq::new(
                            ORDERBOOK_SIZE as nat,
                            |j: int| START_MULTIPLIER_VALUE,
                        ),
                        low_position_decay: Seq::new(ORDERBOOK_SIZE as nat, |j: int| START_DECAY_VALUE),
                    },
                ),
                ..m
            },
        )
    }
}

/// Lists the asset `mint` in the market with the given leverage.
pub fn handler(all_assets: &mut AllAssets, mint: Pubkey, leverage: u64) -> (r: Result<(), ErrorCode>)
    ensures
        match add_asset_outcome(old(all_assets)@, mint, leverage) {
            Ok(m) => r is Ok && final(all_assets)@ == m,
            Err(e) => r == Err::<(), ErrorCode>(e) && *final(all_assets) == *old(all_assets),
        },
{
    let ghost m = all_assets@;
    if !(leverage > SCALE_LEVERAGE) {
        return Err(ErrorCode::InvalidLeverage);
    }
    let asset_idx = all_assets.size_assets;
    if !(asset_idx < MAX_ASSETS) {
        return Err(ErrorCode::AllAssetsIsFull);
    }
    let mut i: usize = 0;
    while i < asset_idx as usize
        invariant
            m == all_assets@,
            leverage > SCALE_LEVERAGE,
            asset_idx == all_assets.size_assets,
            asset_idx < MAX_ASSETS,
            i <= asset_idx,
            forall|k: int| 0 <= k < i ==> all_assets.assets[k].mint != mint,
        decreases asset_idx - i,
    {
        if all_assets.assets[i].mint.equals(&mint) {
            assert(m.assets[i as int].mint == mint);

            return Err(ErrorCode::AssetAlreadyInitialized);
        }
        i += 1;
    }
    assert(!exists|k: int| 0 <= k < m.size_assets && #[trigger] m.assets[k].mint == mint);
    all_assets.size_assets = asset_idx + 1;
    let idx = asset_idx as usize;
    all_assets.assets[idx].mint = mint;
    all_assets.assets[idx].leverage = leverage;
    all_assets.assets[idx].orderbook = Orderbook {
        slots: [0u64; ORDERBOOK_SIZE],
        looper_multiplier: [START_MULTIPLIER_VALUE; ORDERBOOK_SIZE],
        low_position_decay: [START_DECAY_VALUE; ORDERBOOK_SIZE],
    };
    proof {
        let target = add_asset_outcome(m, mint, leverage)->Ok_0;
        assert(all_assets@.assets[idx as int].slots =~= target.assets[idx as int].slots);
        assert(all_assets@.assets[idx as int].looper_multiplier =~= target.assets[idx as int].looper_multiplier);
        assert(all_assets@.assets[idx as int].low_position_decay =~= target.assets[idx as int].low_position_decay);
        assert(all_assets@.assets =~= target.assets);
        assert(all_assets@ =~= target);
    }
    Ok(())
}

} // verus!
