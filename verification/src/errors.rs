use vstd::prelude::*;

verus! {

/// The errors an instruction of the market can be refused with.
#[derive(Debug, Clone, Copy, PartialEq, Eq, Structural)]
pub enum ErrorCode {
    /// Leverage must be greater than `SCALE_LEVERAGE`.
    InvalidLeverage,
    /// An asset with the same mint is already listed.
    AssetAlreadyInitialized,
    /// No room is left for another asset.
    AllAssetsIsFull,
    /// The amount deposited is too small.
    LuserEstUnRat,
    /// The number of amounts does not match the number of account sets.
    InvalidInputLength,
    /// Account mints do not match.
    MintMismatch,
    /// Source account owner is not the payer.
    OwnerMismatch,
    /// Vault account owner is not the vault authority.
    VaultOwnerMismatch,
    /// Insufficient funds in the vault for the withdrawal.
    InsufficientVaultFunds,
    /// Only the original lender can withdraw a deposit.
    OnlyOriginalLender,
    /// Asset index must be below `size_assets`.
    InvalidAssetIndex,
    /// Slot index must be below `ORDERBOOK_SIZE`.
    InvalidSlotIndex,
    /// A withdrawal produced an amount to deposit.
    ShouldBeNoDepositAmounts,
    /// A deposit produced an amount to withdraw.
    ShouldBeNoWithdrawAmounts,
    /// Removing a bid produced an amount to deposit.
    ShouldBeNoDepositAmountsInRemoveBid,
    /// Number overflow, underflow or division by zero.
    NumErr,
    /// No liquidity is available in any orderbook.
    NoLiquidityAvailable,
}

} // verus!
