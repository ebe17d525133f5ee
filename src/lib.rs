//! Bookkeeping core of a Lightning node that carries RGB assets over its
//! channels: payment and swap ledgers, the swap validator, the channel
//! identity tracker, the colored-output spend planner, and the event
//! dispatcher that ties them together.

pub mod channel_ids;
pub mod events;
pub mod hex;
pub mod keys;
pub mod ledger;
pub mod network;
pub mod payment;
pub mod spend;
pub mod swap;
pub mod utils;
