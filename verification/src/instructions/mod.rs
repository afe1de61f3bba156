//! The state transition of each instruction of the market. Each handler
//! checks its inputs, updates the state it is given, and returns the token
//! transfers the instruction must make; when it refuses, nothing changes.
pub mod initialize;
pub mod add_asset;
pub mod deposit;
pub mod withdraw;
pub mod place_bid;
pub mod remove_bid;
