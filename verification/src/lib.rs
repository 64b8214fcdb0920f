//! A double-or-nothing betting contract: players bet, and later anyone may draw the pending
//! bets and earn their bounties. The storage and every endpoint are verified against a state
//! machine (`model`); `laws` proves what holds across calls.
use vstd::prelude::*;

pub mod structs;
pub mod token_map;
pub mod percent;
pub mod model;
pub mod storage;
pub mod admin;
pub mod contract;
pub mod laws;

verus! {

/// The scale on which every percentage of the contract is expressed: this value is 100%.
pub const HUNDRED_PERCENT: u64 = 100_000_000;

} // verus!
