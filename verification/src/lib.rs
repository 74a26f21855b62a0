//! Fee custody and reward distribution for a prediction market.
//!
//! A [`Treasury`] holds three fee pools. Fees enter a pool through
//! [`Treasury::deposit_fees`], and the leaderboard pool is paid out in basis
//! point shares by [`Treasury::distribute_leaderboard`]. Funds move on a
//! token contract of the Soroban host; the pools, the validation rules and
//! the payout arithmetic are proved.

pub mod category;
pub mod host;
pub mod rewards;
pub mod treasury;

pub use category::FeeCategory;
pub use host::LedgerRefusal;
pub use rewards::{
    payout_amount, plan_payouts, sum_shares, Payout, PayoutPlan, RewardShare, BPS_TOTAL,
};
pub use treasury::{
    Authorization, Distribution, Treasury, TreasuryError, TreasuryEvent, TreasuryState,
};
