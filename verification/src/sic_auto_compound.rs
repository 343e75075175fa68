//! The auto-compounding investment contract, as far as the collector deals
//! with it: its messages.

pub mod msg;
