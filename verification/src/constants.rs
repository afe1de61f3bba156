use vstd::prelude::*;

verus! {

/// Fixed-point value of an APY of 100%.
pub const VALUE_100_PERCENT_APY: u64 = 1_000_000_000_000;

/// Value of every multiplier when it starts accruing.
pub const START_MULTIPLIER_VALUE: u64 = 1_000_000_000_000;

/// Number of seconds in a year (365 days).
pub const VALUE_SECONDS_IN_A_YEAR: u64 = 31_536_000;

/// Value of the low-position decay of a tick that was never shared.
pub const START_DECAY_VALUE: u64 = 1_000_000_000_000_000;

/// Fixed-point value of a leverage of 1x.
pub const SCALE_LEVERAGE: u64 = 1_000;

/// Fixed-point value of a price of 1 underlying per asset.
pub const SCALE_ORACLE_VALUE: u64 = 1_000_000_000_000;

/// Positions holding less than this value are liquidated.
pub const LIQUIDATION_MARGIN: u64 = 1_000;

/// Smallest amount a looper may bid (exclusive).
pub const MIN_DEPOSIT: u64 = 500 * LIQUIDATION_MARGIN;

} // verus!
