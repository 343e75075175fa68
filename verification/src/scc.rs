//! The collector: it keeps the registry of strategies and every user's
//! shares and pending airdrops.

pub mod contract;
pub mod helpers;
pub mod msg;
pub mod shares;
pub mod state;
pub mod user;
