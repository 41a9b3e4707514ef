//! Value types of the price oracle that sits between payout coordinators
//! and price adapters: keys and stamps for its in-flight request book.

use vstd::prelude::*;

verus! {

/// The pair a price is asked for.
#[derive(Clone, Debug, PartialEq, Eq)]
pub struct PriceKey {
    pub base: String,
    pub quote: String,
}

/// A point in chain time, in both clocks.
#[derive(Clone, Copy, Debug, PartialEq, Eq, Structural)]
pub struct Stamp {
    pub timestamp: u64,
    pub block_height: u64,
}

/// A point in chain time, in one clock.
#[derive(Clone, Copy, Debug, PartialEq, Eq, Structural)]
pub enum StampOne {
    Timestamp(u64),
    BlockHeight(u64),
}

/// One pending price request of the oracle: what was asked, until when the
/// answer is wanted, from when a cached price would still be acceptable,
/// and when the request went out.
#[derive(Clone, Debug, PartialEq, Eq)]
pub struct PendingVal {
    pub price_key: PriceKey,
    pub expiration: StampOne,
    pub window_start: StampOne,
    pub inflight_request_timestamp: Stamp,
}

} // verus!
