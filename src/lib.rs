//! A staking engine: participants lock value, earn rewards in proportion to the value and
//! the time it stays locked, wait out a cooldown before unlocked value can be withdrawn,
//! earn a boost from the square root of their stake, and can be slashed by an admin.
//!
//! Every operation takes the current tick and returns what must be moved; moving value
//! and persisting records is left to the caller.

pub mod account;
pub mod badge;
pub mod boost;
pub mod engine;
pub mod error;
pub mod laws;
pub mod reward;

pub use account::{cut_for, roll_forward, Participant, StakeInfo, UnstakeRequest, COOLDOWN_LEDGERS, SLASH_RATE_BPS};
pub use badge::{BadgeType, TipNftBadgeContract, UserStats};
pub use boost::{boost_for_principal, MAX_BOOST, MIN_STAKE};
pub use engine::StakingContract;
pub use error::Error;
pub use reward::{calculate_accrued, BPS_DENOM, LEDGERS_PER_YEAR, REWARD_RATE_BPS};
