//! Value types of the single-pair price feeder front end.

use vstd::prelude::*;

verus! {

/// The one pair a feeder serves, with the asset identifiers used on the
/// remote chain.
#[derive(Clone, Debug, PartialEq, Eq)]
pub struct TwapSetting {
    pub pool_id: u64,
    pub base_asset: String,
    pub quote_asset: String,
    pub base_twap_asset: String,
    pub quote_twap_asset: String,
}

/// What a feeder answers a caller with.
#[derive(Clone, Debug, PartialEq, Eq)]
pub enum ContractResponseMsg {
    ResponseTokenPrice { arithmetic_twap: String },
}

} // verus!
