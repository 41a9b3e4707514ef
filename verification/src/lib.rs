//! A verified core for an asynchronous, cross-component price-request
//! protocol: a payout coordinator asks a price adapter for an asset price;
//! the adapter deduplicates concurrent identical queries, dispatches one
//! interchain query over a negotiated transport channel, and on a later
//! invocation decodes the acknowledgment and fans the resolved price out to
//! every coalesced requester.

pub mod ack;
pub mod decimal;
pub mod disburser;
pub mod error;
pub mod execute;
pub mod expiration;
pub mod feeder;
pub mod hashing;
pub mod ibc;
pub mod icq;
pub mod oracle;
pub mod state;
pub mod twap;
pub mod wire;
