//! Errors of the price adapter.

use vstd::prelude::*;

verus! {

/// Everything the price adapter can reject or report.
#[derive(Clone, Debug, PartialEq, Eq)]
pub enum ContractError {
    Unauthorized,
    /// The proposed channel version is not the one this adapter speaks.
    InvalidIbcVersion { version: String },
    /// The acknowledgment did not contain exactly one query response.
    InvalidResponseQuery,
    /// The query response carried a non-success status code.
    InvalidResponseQueryCode,
    /// The query response value was empty.
    EmptyTwap,
    /// No transport channel is open.
    IbcChannelNotOpen,
    /// A transport channel is already open.
    IbcChannelAlreadyOpen,
    /// This component only originates queries; it accepts no packets.
    IbcReceiveNotAccepted,
    /// The price string in the response is not a decimal.
    InvalidTwapString { twap: String },
    /// Only absolute-time deadlines can become transport timeouts.
    UnsupportedExpirationType,
    /// No TWAP setting is configured for the requested pair.
    UnsupportedPairRequest,
    /// Only unordered channels are supported.
    OnlyOrderedChannel,
    /// An acknowledgment envelope could not be decoded.
    MalformedAcknowledgement,
}

/// The mathematical value of a [`ContractError`].
pub enum ContractErrorV {
    Unauthorized,
    InvalidIbcVersion { version: Seq<char> },
    InvalidResponseQuery,
    InvalidResponseQueryCode,
    EmptyTwap,
    IbcChannelNotOpen,
    IbcChannelAlreadyOpen,
    IbcReceiveNotAccepted,
    InvalidTwapString { twap: Seq<char> },
    UnsupportedExpirationType,
    UnsupportedPairRequest,
    OnlyOrderedChannel,
    MalformedAcknowledgement,
}

impl View for ContractError {
    type V = ContractErrorV;

    open spec fn view(&self) -> ContractErrorV {
        match self {
            ContractError::Unauthorized => ContractErrorV::Unauthorized,
            ContractError::InvalidIbcVersion { version } => ContractErrorV::InvalidIbcVersion {
                version: version@,
            },
            ContractError::InvalidResponseQuery => ContractErrorV::InvalidResponseQuery,
            ContractError::InvalidResponseQueryCode => ContractErrorV::InvalidResponseQueryCode,
            ContractError::EmptyTwap => ContractErrorV::EmptyTwap,
            ContractError::IbcChannelNotOpen => ContractErrorV::IbcChannelNotOpen,
            ContractError::IbcChannelAlreadyOpen => ContractErrorV::IbcChannelAlreadyOpen,
            ContractError::IbcReceiveNotAccepted => ContractErrorV::IbcReceiveNotAccepted,
            ContractError::InvalidTwapString { twap } => ContractErrorV::InvalidTwapString {
                twap: twap@,
            },
            ContractError::UnsupportedExpirationType => ContractErrorV::UnsupportedExpirationType,
            ContractError::UnsupportedPairRequest => ContractErrorV::UnsupportedPairRequest,
            ContractError::OnlyOrderedChannel => ContractErrorV::OnlyOrderedChannel,
            ContractError::MalformedAcknowledgement => ContractErrorV::MalformedAcknowledgement,
        }
    }
}

} // verus!
