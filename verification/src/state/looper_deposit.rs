use vstd::prelude::*;
use crate::errors::ErrorCode;
use crate::pubkey::Pubkey;
use crate::utility::{rescale, spec_rescale, truncate_to_u64, u128_as_u64};

verus! {

/// A looper's position on a tick of an asset's orderbook.
#[derive(Clone, Copy, Debug)]
pub struct LooperDeposit {
    pub looper: Pubkey,
    /// Which asset was deposited.
    pub asset_index: u64,
    /// Which tick (APY) the looper pays.
    pub slot_index: u64,
    /// Value of the position.
    pub amount: u64,
    /// Value of the tick's looper multiplier at the last interaction.
    pub last_multiplier: u64,
    /// Value of the tick's low-position decay at the last interaction.
    pub last_decay: u64,
    pub bump: u8,
}

impl LooperDeposit {
    /// Brings the amount up to date with the tick's looper multiplier: the
    /// amount is scaled by `current_looper_multiplier / last_multiplier`, and
    /// the multiplier is recorded. Refused with `NumErr`, and nothing changes,
    /// on overflow or when no multiplier was recorded.
    pub fn adjust_for_looper_multiplier(&mut self, current_looper_multiplier: u128) -> (r: Result<
        (),
        ErrorCode,
    >)
        ensures
            match spec_rescale(old(self).amount, current_looper_multiplier, old(self).last_multiplier) {
                Ok(amount) => {
                    &&& r is Ok
                    &&& *final(self) == (LooperDeposit {
                        amount,
                        last_multiplier: u128_as_u64(current_looper_multiplier),
                        ..*old(self)
                    })
                },
                Err(e) => r == Err::<(), ErrorCode>(e) && *final(self) == *old(self),
            },
    {
        let adjusted_amount = rescale(self.amount, current_looper_multiplier, self.last_multiplier)?;
        self.amount = adjusted_amount;
        self.last_multiplier = truncate_to_u64(current_looper_multiplier);
        Ok(())
    }

    /// Brings the amount up to date with the tick's low-position decay: the
    /// amount is scaled by `current_decay / last_decay`, and the decay is
    /// recorded. Refused with `NumErr`, and nothing changes, on overflow or
    /// when no decay was recorded.
    pub fn adjust_for_decay(&mut self, current_decay: u128) -> (r: Result<(), ErrorCode>)
        ensures
            match spec_rescale(old(self).amount, current_decay, old(self).last_decay) {
                Ok(amount) => {
                    &&& r is Ok
                    &&& *final(self) == (LooperDeposit {
                        amount,
                        last_decay: u128_as_u64(current_decay),
                        ..*old(self)
                    })
                },
                Err(e) => r == Err::<(), ErrorCode>(e) && *final(self) == *old(self),
            },
    {
        let adjusted_amount = rescale(self.amount, current_decay, self.last_decay)?;
        self.amount = adjusted_amount;
        self.last_decay = truncate_to_u64(current_decay);
        Ok(())
    }
}

} // verus!
