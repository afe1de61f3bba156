use vstd::prelude::*;
use crate::errors::ErrorCode;
use crate::pubkey::Pubkey;
use crate::utility::{rescale, spec_rescale, truncate_to_u64, u128_as_u64};

verus! {

/// A lender's position in a market.
#[derive(Clone, Copy, Debug)]
pub struct LenderDeposit {
    pub lender: Pubkey,
    /// Amount of underlying the position is worth; changes over time.
    pub amount: u64,
    /// Value of the lender multiplier at the last interaction.
    pub last_multiplier: u64,
    pub bump: u8,
}

impl LenderDeposit {
    /// Brings the amount up to date with the lender multiplier: the amount is
    /// scaled by `current_lender_multiplier / last_multiplier`, and the
    /// multiplier is recorded. Refused with `NumErr`, and nothing changes, on
    /// overflow or when no multiplier was recorded.
    pub fn adjust_for_lender_multiplier(&mut self, current_lender_multiplier: u128) -> (r: Result<
        (),
        ErrorCode,
    >)
        ensures
            match spec_rescale(old(self).amount, current_lender_multiplier, old(self).last_multiplier) {
                Ok(amount) => {
                    &&& r is Ok
                    &&& *final(self) == (LenderDeposit {
                        amount,
                        last_multiplier: u128_as_u64(current_lender_multiplier),
                        ..*old(self)
                    })
                },
                Err(e) => r == Err::<(), ErrorCode>(e) && *final(self) == *old(self),
            },
    {
        let adjusted_amount = rescale(self.amount, current_lender_multiplier, self.last_multiplier)?;
        self.amount = adjusted_amount;
        self.last_multiplier = truncate_to_u64(current_lender_multiplier);
        Ok(())
    }
}

} // verus!
