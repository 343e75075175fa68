//! The plain investment contract of a strategy, as far as the collector
//! deals with it: its messages and the records it keeps.

pub mod msg;
pub mod state;
