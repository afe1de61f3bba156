use vstd::prelude::*;
use crate::constants::START_MULTIPLIER_VALUE;
use crate::pubkey::Pubkey;
use crate::state::all_assets::{AllAssets, AssetInfo, Orderbook, ORDERBOOK_SIZE};

verus! {

/// Every byte of the key is zero.
pub open spec fn is_zero_key(k: Pubkey) -> bool {
    forall|b: int| 0 <= b < 32 ==> k.0[b] == 0
}

/// An asset slot that was never filled: every field is zero.
pub open spec fn is_zeroed_asset(a: AssetInfo) -> bool {
    &&& is_zero_key(a.mint)
    &&& a.leverage == 0
    &&& forall|j: int|
        0 <= j < ORDERBOOK_SIZE ==> {
            &&& a.orderbook.slots[j] == 0
            &&& a.orderbook.looper_multiplier[j] == 0
            &&& a.orderbook.low_position_decay[j] == 0
        }
}

/// Creates a market for `base_asset` whose lowest tick pays `start_apy` and
/// whose ticks are `apy_tick` apart, with no asset listed, nothing deposited,
/// and the lender multiplier at its start value as of `current_timestamp`.
pub fn handler(base_asset: Pubkey, start_apy: u64, apy_tick: u64, current_timestamp: i64) -> (r:
    AllAssets)
    ensures
        r.base_asset == base_asset,
        r.size_assets == 0,
        r.start_apy == start_apy,
        r.apy_tick == apy_tick,
        r.amount == 0,
        r.lender_multiplier == START_MULTIPLIER_VALUE,
        r.last_update_timestamp == current_timestamp,
        r.current_apy == 0,
        forall|i: int| 0 <= i < 2 ==> is_zeroed_asset(#[trigger] r.assets[i]),
{
    let empty = AssetInfo {
        mint: Pubkey([0u8; 32]),
        leverage: 0,
        orderbook: Orderbook {
            slots: [0u64; ORDERBOOK_SIZE],
            looper_multiplier: [0u64; ORDERBOOK_SIZE],
            low_position_decay: [0u64; ORDERBOOK_SIZE],
        },
    };
    AllAssets {
        base_asset,
        size_assets: 0,
        assets: [empty, empty],
        start_apy,
        apy_tick,
        amount: 0,
        lender_multiplier: START_MULTIPLIER_VALUE,
        last_update_timestamp: current_timestamp,
        current_apy: 0,
    }
}

} // verus!
