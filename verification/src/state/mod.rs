use vstd::prelude::*;
use crate::pubkey::Pubkey;

pub mod model;
pub mod all_assets;
pub mod lender_deposit;
pub mod looper_deposit;

verus! {

/// A looper's bid on a tick.
#[derive(Clone, Copy, Debug)]
pub struct Bid {
    pub user: Pubkey,
    pub slot_index: u32,
    pub jitosol_amount: u64,
    pub asset_amount: u64,
}

} // verus!
