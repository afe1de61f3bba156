//! Accounting core of a lending market where lenders deposit an underlying
//! asset and loopers bid fixed APYs in per-asset orderbooks.
//!
//! The library holds the market state, the auction that splits the lenders'
//! deposits over the best bids, interest accrual, and the state transition of
//! each instruction. Token transfers and account handling are left to the
//! program that embeds it: each instruction returns the transfers it needs.
pub mod constants;
pub mod errors;
pub mod pubkey;
pub mod state;
pub mod utility;
pub mod instructions;
pub mod laws;
pub mod instruction_laws;
