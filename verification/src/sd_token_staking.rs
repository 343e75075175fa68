//! The token-staking pool: stakers bond a token and earn rewards that an
//! emission schedule releases over time.

pub mod contract;
pub mod msg;
pub mod state;
