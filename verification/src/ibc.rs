//! The transport side of the adapter: the channel-lifecycle state machine
//! and the handlers for acknowledgments and timeouts of dispatched queries.
//!
//! Acknowledgments arrive as independent, later invocations, possibly out
//! of order, duplicated, or for keys the store no longer holds; they are
//! correlated to their query purely by the content hash of the original
//! packet bytes, and every terminal outcome on a known key releases its
//! store entry.

use crate::ack::{enc_ack_wrapper, lemma_ack_wrapper_roundtrip, parse_ack_wrapper, AckWrapper,
    AckWrapperV};
use crate::decimal::{decimal_from_str, parse_decimal_atomics};
use crate::error::{ContractError, ContractErrorV};
use crate::hashing::{data_hash, sha256_of};
use crate::icq::{
    enc_abci_response, enc_abci_responses, enc_bytes_envelope, lemma_abci_responses_roundtrip,
    lemma_bytes_envelope_roundtrip, parse_abci_responses, parse_bytes_envelope, AbciResponseV,
    AcknowledgementResult, CosmosResponse,
};
use crate::state::{str_eq, AdapterState, AdapterStateV, ChannelInfo, RequestInfo, RequestInfoV};
use crate::twap::{enc_twap_response, lemma_twap_response_roundtrip, parse_twap_response,
    ArithmeticTwapToNowResponse};
use vstd::prelude::*;
use vstd::string::StringExecFns;

verus! {

/// The channel version this adapter speaks.
pub open spec fn ibc_version() -> Seq<char> {
    "icq-1"@
}

/// The ordering of a proposed channel.
#[derive(Clone, Copy, Debug, PartialEq, Eq, Structural)]
pub enum IbcOrder {
    Unordered,
    Ordered,
}

/// A handshake proposal is admissible when the channel is unordered, its
/// version is the one this adapter speaks, and the counterparty's version,
/// when already known, is too.
pub open spec fn handshake_admissible(
    order: IbcOrder,
    version: Seq<char>,
    counterparty_version: Option<Seq<char>>,
) -> bool {
    &&& order == IbcOrder::Unordered
    &&& version == ibc_version()
    &&& (counterparty_version matches Some(c) ==> c == ibc_version())
}

/// The view of an optional version string.
pub open spec fn opt_version_view(v: Option<&str>) -> Option<Seq<char>> {
    match v {
        None => None,
        Some(c) => Some(c@),
    }
}

/// Validates a proposed channel's order and version.
///
/// Rejects ordered channels first, then a wrong version, then a wrong
/// counterparty version.
pub fn validate_order_and_version(
    order: IbcOrder,
    version: &str,
    counterparty_version: Option<&str>,
) -> (r: Result<(), ContractError>)
    ensures
        r is Ok <==> handshake_admissible(order, version@, opt_version_view(counterparty_version)),
        order != IbcOrder::Unordered ==> r == Err::<(), ContractError>(
            ContractError::OnlyOrderedChannel,
        ),
        order == IbcOrder::Unordered && version@ != ibc_version() ==> (r matches Err(e) && e@
            == (ContractErrorV::InvalidIbcVersion { version: version@ })),
        order == IbcOrder::Unordered && version@ == ibc_version() && (opt_version_view(
            counterparty_version,
        ) matches Some(c) && c != ibc_version()) ==> (r matches Err(e) && e@
            == (ContractErrorV::InvalidIbcVersion {
            version: opt_version_view(counterparty_version).unwrap(),
        })),
{
    if !matches!(order, IbcOrder::Unordered) {
        return Err(ContractError::OnlyOrderedChannel);
    }
    if !str_eq(version, "icq-1") {
        return Err(ContractError::InvalidIbcVersion { version: String::from_str(version) });
    }
    match counterparty_version {
        Some(c) => {
            if !str_eq(c, "icq-1") {
                return Err(ContractError::InvalidIbcVersion { version: String::from_str(c) });
            }
        },
        None => {},
    }
    Ok(())
}

/// Handles the opening half of the handshake: accepts an admissible
/// proposal without persisting anything, and rejects every proposal while a
/// channel already exists, whatever its order and version.
pub fn ibc_channel_open(
    state: &AdapterState,
    order: IbcOrder,
    version: &str,
    counterparty_version: Option<&str>,
) -> (r: Result<(), ContractError>)
    ensures
        state@.channel is Some ==> r == Err::<(), ContractError>(
            ContractError::IbcChannelAlreadyOpen,
        ),
        state@.channel is None ==> (r is Ok <==> handshake_admissible(
            order,
            version@,
            opt_version_view(counterparty_version),
        )),
        state@.channel is None && order != IbcOrder::Unordered ==> r == Err::<(), ContractError>(
            ContractError::OnlyOrderedChannel,
        ),
        state@.channel is None && order == IbcOrder::Unordered && version@ != ibc_version() ==> (
        r matches Err(e) && e@ == (ContractErrorV::InvalidIbcVersion { version: version@ })),
        state@.channel is None && order == IbcOrder::Unordered && version@ == ibc_version() && (
        opt_version_view(counterparty_version) matches Some(c) && c != ibc_version()) ==> (
        r matches Err(e) && e@ == (ContractErrorV::InvalidIbcVersion {
            version: opt_version_view(counterparty_version).unwrap(),
        })),
{
    if state.channel.is_some() {
        return Err(ContractError::IbcChannelAlreadyOpen);
    }
    validate_order_and_version(order, version, counterparty_version)
}

/// Handles the confirming half of the handshake: re-validates order and
/// version with the same rules, rejects if a channel is already open, and
/// on success persists the confirmed channel.
pub fn ibc_channel_connect(
    state: &mut AdapterState,
    channel: ChannelInfo,
    order: IbcOrder,
    version: &str,
    counterparty_version: Option<&str>,
) -> (r: Result<(), ContractError>)
    requires
        old(state).wf(),
    ensures
        final(state).wf(),
        final(state)@.twap_settings == old(state)@.twap_settings,
        final(state)@.requests == old(state)@.requests,
        r is Ok <==> (old(state)@.channel is None && handshake_admissible(
            order,
            version@,
            opt_version_view(counterparty_version),
        )),
        r is Ok ==> final(state)@.channel == Some(channel@),
        r is Err ==> final(state)@ == old(state)@,
        old(state)@.channel is Some ==> r == Err::<(), ContractError>(
            ContractError::IbcChannelAlreadyOpen,
        ),
        old(state)@.channel is None && order != IbcOrder::Unordered ==> r == Err::<
            (),
            ContractError,
        >(ContractError::OnlyOrderedChannel),
        old(state)@.channel is None && order == IbcOrder::Unordered && version@ != ibc_version()
            ==> (r matches Err(e) && e@ == (ContractErrorV::InvalidIbcVersion {
            version: version@,
        })),
        old(state)@.channel is None && order == IbcOrder::Unordered && version@ == ibc_version()
            && (opt_version_view(counterparty_version) matches Some(c) && c != ibc_version()) ==> (
        r matches Err(e) && e@ == (ContractErrorV::InvalidIbcVersion {
            version: opt_version_view(counterparty_version).unwrap(),
        })),
{
    if state.channel.is_some() {
        return Err(ContractError::IbcChannelAlreadyOpen);
    }
    match validate_order_and_version(order, version, counterparty_version) {
        Err(e) => Err(e),
        Ok(()) => {
            state.channel = Some(channel);
            Ok(())
        },
    }
}

/// Closes the channel: clears the stored channel information, whether or
/// not any is present, and reports the id of the channel that was closed.
pub fn ibc_channel_close(state: &mut AdapterState) -> (r: Option<String>)
    requires
        old(state).wf(),
    ensures
        final(state).wf(),
        final(state)@.channel is None,
        final(state)@.twap_settings == old(state)@.twap_settings,
        final(state)@.requests == old(state)@.requests,
        match r {
            Some(id) => old(state)@.channel matches Some(c) && id@ == c.id,
            None => old(state)@.channel is None,
        },
{
    match state.channel.take() {
        Some(c) => Some(c.id),
        None => None,
    }
}

/// Rejects every incoming packet: this component only originates queries.
pub fn ibc_packet_receive() -> (r: Result<(), ContractError>)
    ensures
        r == Err::<(), ContractError>(ContractError::IbcReceiveNotAccepted),
{
    Err(ContractError::IbcReceiveNotAccepted)
}

/// One callback dispatched to a requester: the price it asked for, under
/// the sequence number it supplied.
#[derive(Clone, Debug, PartialEq, Eq)]
pub struct CallbackMsg {
    pub recipient: String,
    pub request_id: u64,
    pub price_atomics: u128,
}

/// The mathematical value of a [`CallbackMsg`].
pub struct CallbackMsgV {
    pub recipient: Seq<char>,
    pub request_id: u64,
    pub price_atomics: u128,
}

impl View for CallbackMsg {
    type V = CallbackMsgV;

    open spec fn view(&self) -> CallbackMsgV {
        CallbackMsgV {
            recipient: self.recipient@,
            request_id: self.request_id,
            price_atomics: self.price_atomics,
        }
    }
}

/// How an acknowledgment was handled. None of these outcomes is
/// process-fatal: a decode failure is reported and still releases the
/// store entry.
#[derive(Clone, Debug, PartialEq, Eq)]
pub enum AckOutcome {
    /// No in-flight query matches the packet: a stale or foreign
    /// acknowledgment, tolerated without error.
    UnknownRequest,
    /// The counterparty reported an error for the query.
    AckError(String),
    /// The acknowledgment could not be decoded or validated.
    DecodeFailure(ContractError),
    /// The price was resolved and fanned out to every requester.
    Resolved { price_atomics: u128 },
}

/// The mathematical value of an [`AckOutcome`].
pub enum AckOutcomeV {
    UnknownRequest,
    AckError(Seq<char>),
    DecodeFailure(ContractErrorV),
    Resolved { price_atomics: u128 },
}

impl View for AckOutcome {
    type V = AckOutcomeV;

    open spec fn view(&self) -> AckOutcomeV {
        match self {
            AckOutcome::UnknownRequest => AckOutcomeV::UnknownRequest,
            AckOutcome::AckError(msg) => AckOutcomeV::AckError(msg@),
            AckOutcome::DecodeFailure(e) => AckOutcomeV::DecodeFailure(e@),
            AckOutcome::Resolved { price_atomics } => AckOutcomeV::Resolved {
                price_atomics: *price_atomics,
            },
        }
    }
}

/// What handling one acknowledgment produced: the outcome, the callbacks
/// to dispatch, and the transport sequence number for observability.
#[derive(Clone, Debug, PartialEq, Eq)]
pub struct AckResponse {
    pub outcome: AckOutcome,
    pub callbacks: Vec<CallbackMsg>,
    pub sequence: u64,
}

/// The callback fan-out for a list of requesters, in registration order,
/// each carrying the same resolved price and its own sequence number.
pub open spec fn callbacks_for(requesters: Seq<RequestInfoV>, price: u128) -> Seq<CallbackMsgV> {
    requesters.map_values(
        |r: RequestInfoV|
            CallbackMsgV { recipient: r.sender, request_id: r.sequence, price_atomics: price },
    )
}

/// The price extracted from the decoded batch-of-responses bytes of a
/// successful acknowledgment, or the exact failure.
pub open spec fn extract_twap_price_spec(responses_bytes: Seq<u8>) -> Result<u128, ContractErrorV> {
    match parse_abci_responses(responses_bytes) {
        None => Err(ContractErrorV::MalformedAcknowledgement),
        Some(responses) => {
            if responses.len() != 1 {
                Err(ContractErrorV::InvalidResponseQuery)
            } else if responses[0].code != 0 {
                Err(ContractErrorV::InvalidResponseQueryCode)
            } else if responses[0].value.len() == 0 {
                Err(ContractErrorV::EmptyTwap)
            } else {
                match parse_twap_response(responses[0].value) {
                    None => Err(ContractErrorV::MalformedAcknowledgement),
                    Some(twap) => match decimal_from_str(twap) {
                        None => Err(ContractErrorV::InvalidTwapString { twap }),
                        Some(price) => Ok(price),
                    },
                }
            }
        },
    }
}

/// The whole effect of one acknowledgment on the adapter: the new state,
/// the outcome, and the callbacks to dispatch.
pub open spec fn packet_ack_spec(s: AdapterStateV, packet: Seq<u8>, ack: Seq<u8>) -> (
    AdapterStateV,
    AckOutcomeV,
    Seq<CallbackMsgV>,
) {
    let key = sha256_of(packet);
    if !s.requests.contains_key(key) {
        (s, AckOutcomeV::UnknownRequest, Seq::<CallbackMsgV>::empty())
    } else {
        let requesters = s.requests[key];
        let s2 = AdapterStateV { requests: s.requests.remove(key), ..s };
        match parse_ack_wrapper(ack) {
            None => (
                s2,
                AckOutcomeV::DecodeFailure(ContractErrorV::MalformedAcknowledgement),
                Seq::<CallbackMsgV>::empty(),
            ),
            Some(AckWrapperV::Error(msg)) => (
                s2,
                AckOutcomeV::AckError(msg),
                Seq::<CallbackMsgV>::empty(),
            ),
            Some(AckWrapperV::Result(result_bytes)) => match parse_bytes_envelope(result_bytes) {
                None => (
                    s2,
                    AckOutcomeV::DecodeFailure(ContractErrorV::MalformedAcknowledgement),
                    Seq::<CallbackMsgV>::empty(),
                ),
                Some(inner) => match extract_twap_price_spec(inner) {
                    Err(e) => (s2, AckOutcomeV::DecodeFailure(e), Seq::<CallbackMsgV>::empty()),
                    Ok(price) => (
                        s2,
                        AckOutcomeV::Resolved { price_atomics: price },
                        callbacks_for(requesters, price),
                    ),
                },
            },
        }
    }
}

/// Decodes the batch of query responses of an acknowledgment.
pub fn decode_response(bytes: &[u8]) -> (r: Result<CosmosResponse, ContractError>)
    ensures
        match r {
            Ok(c) => parse_abci_responses(bytes@) == Some(c@),
            Err(e) => parse_abci_responses(bytes@) is None && e
                == ContractError::MalformedAcknowledgement,
        },
{
    match CosmosResponse::decode(bytes) {
        Some(c) => Ok(c),
        None => Err(ContractError::MalformedAcknowledgement),
    }
}

/// Decodes the domain TWAP response inside one query response.
pub fn decode_twap_response(bytes: &[u8]) -> (r: Result<ArithmeticTwapToNowResponse, ContractError>)
    ensures
        match r {
            Ok(t) => parse_twap_response(bytes@) == Some(t@),
            Err(e) => parse_twap_response(bytes@) is None && e
                == ContractError::MalformedAcknowledgement,
        },
{
    match ArithmeticTwapToNowResponse::decode(bytes) {
        Some(t) => Ok(t),
        None => Err(ContractError::MalformedAcknowledgement),
    }
}

/// Extracts the resolved price from a successful acknowledgment's inner
/// envelope: the batch must hold exactly one response, with the success
/// code, a non-empty value, and a decimal price string.
pub fn extract_twap_price_from_ack(packet_ack: &AcknowledgementResult) -> (r: Result<
    u128,
    ContractError,
>)
    ensures
        match r {
            Ok(p) => extract_twap_price_spec(packet_ack@) == Ok::<u128, ContractErrorV>(p),
            Err(e) => extract_twap_price_spec(packet_ack@) == Err::<u128, ContractErrorV>(e@),
        },
{
    let responses = match decode_response(packet_ack.result.as_slice()) {
        Ok(c) => c,
        Err(e) => {
            return Err(e);
        },
    };
    if responses.responses.len() != 1 {
        return Err(ContractError::InvalidResponseQuery);
    }
    let response = &responses.responses[0];
    proof {
        assert(responses@[0] == responses.responses@[0]@);
    }
    if response.code != 0 {
        return Err(ContractError::InvalidResponseQueryCode);
    }
    if response.value.len() == 0 {
        return Err(ContractError::EmptyTwap);
    }
    let twap_response = match decode_twap_response(response.value.as_slice()) {
        Ok(t) => t,
        Err(e) => {
            return Err(e);
        },
    };
    match parse_decimal_atomics(twap_response.arithmetic_twap.as_str()) {
        None => Err(ContractError::InvalidTwapString { twap: twap_response.arithmetic_twap }),
        Some(price) => Ok(price),
    }
}

/// Builds one callback per requester record, in registration order,
/// duplicates included, each carrying the resolved price and the
/// requester's own sequence number.
pub fn create_callback_messages(requesters: &Vec<RequestInfo>, price_atomics: u128) -> (r: Vec<
    CallbackMsg,
>)
    ensures
        r@.map_values(|m: CallbackMsg| m@) == callbacks_for(
            requesters@.map_values(|q: RequestInfo| q@),
            price_atomics,
        ),
{
    let ghost target = callbacks_for(requesters@.map_values(|q: RequestInfo| q@), price_atomics);
    let mut out: Vec<CallbackMsg> = Vec::new();
    let mut i: usize = 0;
    proof {
        assert(out@.map_values(|m: CallbackMsg| m@) =~= target.take(0));
    }
    while i < requesters.len()
        invariant
            i <= requesters@.len(),
            target == callbacks_for(
                requesters@.map_values(|q: RequestInfo| q@),
                price_atomics,
            ),
            target.len() == requesters@.len(),
            out@.map_values(|m: CallbackMsg| m@) == target.take(i as int),
        decreases requesters@.len() - i,
    {
        let rq = &requesters[i];
        let msg = CallbackMsg {
            recipient: rq.sender.clone(),
            request_id: rq.sequence,
            price_atomics,
        };
        proof {
            assert(target[i as int] == msg@);
        }
        let ghost pre = out@;
        out.push(msg);
        proof {
            assert(out@.map_values(|m: CallbackMsg| m@) =~= pre.map_values(
                |m: CallbackMsg| m@,
            ).push(msg@));
            assert(target.take(i + 1) =~= target.take(i as int).push(target[i as int]));
        }
        i = i + 1;
    }
    proof {
        assert(target.take(requesters@.len() as int) =~= target);
    }
    out
}

/// Resolves a successful acknowledgment's inner envelope into the callback
/// fan-out for its requesters.
pub fn process_twap_response(
    packet_ack: &AcknowledgementResult,
    requesters: &Vec<RequestInfo>,
) -> (r: Result<Vec<CallbackMsg>, ContractError>)
    ensures
        match r {
            Ok(msgs) => extract_twap_price_spec(packet_ack@) matches Ok(price) && msgs@.map_values(
                |m: CallbackMsg| m@,
            ) == callbacks_for(requesters@.map_values(|q: RequestInfo| q@), price),
            Err(e) => extract_twap_price_spec(packet_ack@) == Err::<u128, ContractErrorV>(e@),
        },
{
    match extract_twap_price_from_ack(packet_ack) {
        Err(e) => Err(e),
        Ok(price) => Ok(create_callback_messages(requesters, price)),
    }
}

/// An empty callback list.
fn no_callbacks() -> (r: Vec<CallbackMsg>)
    ensures
        r@.map_values(|m: CallbackMsg| m@) == Seq::<CallbackMsgV>::empty(),
{
    let v: Vec<CallbackMsg> = Vec::new();
    proof {
        assert(v@.map_values(|m: CallbackMsg| m@) =~= Seq::<CallbackMsgV>::empty());
    }
    v
}

/// Handles the acknowledgment of a previously dispatched query.
///
/// An unregistered key is a tolerated non-error with no callbacks and no
/// state change. A known key is released whatever the outcome; on success
/// every coalesced requester receives one callback, in registration order,
/// all carrying the same resolved price.
pub fn ibc_packet_ack(
    state: &mut AdapterState,
    packet_data: &[u8],
    ack_bytes: &[u8],
    ibc_sequence: u64,
) -> (r: AckResponse)
    requires
        old(state).wf(),
    ensures
        final(state).wf(),
        r.sequence == ibc_sequence,
        ({
            let (s2, outcome, callbacks) = packet_ack_spec(old(state)@, packet_data@, ack_bytes@);
            &&& final(state)@ == s2
            &&& r.outcome@ == outcome
            &&& r.callbacks@.map_values(|m: CallbackMsg| m@) == callbacks
        }),
{
    let key = data_hash(packet_data);
    let requesters = match state.take_request(key.as_slice()) {
        None => {
            return AckResponse {
                outcome: AckOutcome::UnknownRequest,
                callbacks: no_callbacks(),
                sequence: ibc_sequence,
            };
        },
        Some(list) => list,
    };
    let wrapper = match AckWrapper::decode(ack_bytes) {
        None => {
            return AckResponse {
                outcome: AckOutcome::DecodeFailure(ContractError::MalformedAcknowledgement),
                callbacks: no_callbacks(),
                sequence: ibc_sequence,
            };
        },
        Some(w) => w,
    };
    match wrapper {
        AckWrapper::Error(msg) => AckResponse {
            outcome: AckOutcome::AckError(msg),
            callbacks: no_callbacks(),
            sequence: ibc_sequence,
        },
        AckWrapper::Result(result_bytes) => {
            let inner = match AcknowledgementResult::decode(result_bytes.as_slice()) {
                None => {
                    return AckResponse {
                        outcome: AckOutcome::DecodeFailure(
                            ContractError::MalformedAcknowledgement,
                        ),
                        callbacks: no_callbacks(),
                        sequence: ibc_sequence,
                    };
                },
                Some(x) => x,
            };
            match extract_twap_price_from_ack(&inner) {
                Err(e) => AckResponse {
                    outcome: AckOutcome::DecodeFailure(e),
                    callbacks: no_callbacks(),
                    sequence: ibc_sequence,
                },
                Ok(price) => AckResponse {
                    outcome: AckOutcome::Resolved { price_atomics: price },
                    callbacks: create_callback_messages(&requesters, price),
                    sequence: ibc_sequence,
                },
            }
        },
    }
}

/// The one query response of a well-formed successful acknowledgment
/// carrying the price string `twap`.
pub open spec fn valid_ack_response(twap: Seq<char>) -> AbciResponseV {
    AbciResponseV {
        code: 0,
        index: 0,
        key: Seq::<u8>::empty(),
        value: enc_twap_response(twap),
        height: 0,
    }
}

/// The bytes of a well-formed successful acknowledgment carrying the price
/// string `twap`: the encoded batch of one response, wrapped in the inner
/// envelope, wrapped in the result arm of the outer envelope.
pub open spec fn valid_ack_bytes(twap: Seq<char>) -> Seq<u8> {
    enc_ack_wrapper(
        AckWrapperV::Result(enc_bytes_envelope(enc_abci_responses(seq![valid_ack_response(twap)]))),
    )
}

/// Extracting the price from the encoded batch of one well-formed response
/// yields exactly what parsing its decimal string yields.
pub proof fn lemma_extract_price_of_valid_ack(twap: Seq<char>)
    requires
        twap.len() < 0x1000_0000_0000_0000,
    ensures
        extract_twap_price_spec(enc_abci_responses(seq![valid_ack_response(twap)]))
            == (match decimal_from_str(twap) {
            None => Err::<u128, ContractErrorV>(ContractErrorV::InvalidTwapString { twap }),
            Some(p) => Ok::<u128, ContractErrorV>(p),
        }),
{
    let resp = valid_ack_response(twap);
    crate::twap::lemma_enc_twap_response_len(twap);
    crate::icq::lemma_enc_abci_response_len(resp);
    assert(forall|i: int| 0 <= i < seq![resp].len() ==> seq![resp][i] == resp);
    lemma_abci_responses_roundtrip(seq![resp]);
    lemma_twap_response_roundtrip(twap);
}

/// Handling a well-formed successful acknowledgment for an in-flight key
/// whose price string parses resolves the price and dispatches exactly one
/// callback per coalesced requester, in registration order and duplicates
/// included, each carrying that price and its requester's own sequence
/// number; the store entry is released.
pub proof fn lemma_valid_ack_resolves(s: AdapterStateV, packet: Seq<u8>, twap: Seq<char>)
    requires
        s.requests.contains_key(sha256_of(packet)),
        twap.len() < 0x1000_0000_0000_0000,
        decimal_from_str(twap) is Some,
    ensures
        ({
            let key = sha256_of(packet);
            let price = decimal_from_str(twap).unwrap();
            packet_ack_spec(s, packet, valid_ack_bytes(twap)) == (
                AdapterStateV { requests: s.requests.remove(key), ..s },
                AckOutcomeV::Resolved { price_atomics: price },
                callbacks_for(s.requests[key], price),
            )
        }),
{
    let resp = valid_ack_response(twap);
    let batch = enc_abci_responses(seq![resp]);
    let inner = enc_bytes_envelope(batch);
    crate::twap::lemma_enc_twap_response_len(twap);
    crate::icq::lemma_enc_abci_response_len(resp);
    crate::icq::lemma_enc_abci_responses_singleton(resp);
    crate::wire::lemma_varint_enc_len_max(batch.len() as u64);
    lemma_ack_wrapper_roundtrip(AckWrapperV::Result(inner));
    lemma_bytes_envelope_roundtrip(batch);
    lemma_extract_price_of_valid_ack(twap);
}

/// A stale or foreign acknowledgment, one whose packet hashes to no
/// in-flight key, changes nothing, reports no error, and dispatches no
/// callbacks.
pub proof fn lemma_unknown_ack_is_tolerated(s: AdapterStateV, packet: Seq<u8>, ack: Seq<u8>)
    requires
        !s.requests.contains_key(sha256_of(packet)),
    ensures
        packet_ack_spec(s, packet, ack) == (
            s,
            AckOutcomeV::UnknownRequest,
            Seq::<CallbackMsgV>::empty(),
        ),
{
}

/// An acknowledgment for an in-flight key always releases its store entry,
/// whatever the outcome; on success it dispatches exactly one callback per
/// coalesced requester record, in registration order and duplicates
/// included, each carrying the requester's own sequence number and the one
/// resolved price; on every other outcome it dispatches none.
pub proof fn lemma_known_ack_releases_and_fans_out(
    s: AdapterStateV,
    packet: Seq<u8>,
    ack: Seq<u8>,
)
    requires
        s.requests.contains_key(sha256_of(packet)),
    ensures
        ({
            let key = sha256_of(packet);
            let requesters = s.requests[key];
            let (s2, outcome, callbacks) = packet_ack_spec(s, packet, ack);
            &&& s2.requests == s.requests.remove(key)
            &&& s2.channel == s.channel
            &&& s2.twap_settings == s.twap_settings
            &&& (outcome matches AckOutcomeV::Resolved { price_atomics } ==> callbacks.len()
                == requesters.len() && (forall|i: int|
                0 <= i < requesters.len() ==> callbacks[i] == (CallbackMsgV {
                    recipient: requesters[i].sender,
                    request_id: requesters[i].sequence,
                    price_atomics,
                })))
            &&& !(outcome matches AckOutcomeV::Resolved { .. }) ==> callbacks.len() == 0
        }),
{
}

/// One timeout notice: tells a requester that its query timed out, under
/// the sequence number it supplied.
#[derive(Clone, Debug, PartialEq, Eq)]
pub struct TimeoutNotice {
    pub recipient: String,
    pub request_id: u64,
}

/// The mathematical value of a [`TimeoutNotice`].
pub struct TimeoutNoticeV {
    pub recipient: Seq<char>,
    pub request_id: u64,
}

impl View for TimeoutNotice {
    type V = TimeoutNoticeV;

    open spec fn view(&self) -> TimeoutNoticeV {
        TimeoutNoticeV { recipient: self.recipient@, request_id: self.request_id }
    }
}

/// The timeout fan-out for a list of requesters, in registration order.
pub open spec fn timeout_notices_for(requesters: Seq<RequestInfoV>) -> Seq<TimeoutNoticeV> {
    requesters.map_values(
        |r: RequestInfoV| TimeoutNoticeV { recipient: r.sender, request_id: r.sequence },
    )
}

/// Handles the timeout of a previously dispatched query: notifies every
/// coalesced requester, in registration order, and releases the store
/// entry. An unregistered key is tolerated with no change.
pub fn ibc_packet_timeout(state: &mut AdapterState, packet_data: &[u8]) -> (r: Option<
    Vec<TimeoutNotice>,
>)
    requires
        old(state).wf(),
    ensures
        final(state).wf(),
        final(state)@.twap_settings == old(state)@.twap_settings,
        final(state)@.channel == old(state)@.channel,
        ({
            let key = sha256_of(packet_data@);
            match r {
                Some(notices) => old(state)@.requests.contains_key(key) && notices@.map_values(
                    |n: TimeoutNotice| n@,
                ) == timeout_notices_for(old(state)@.requests[key]) && final(state)@.requests
                    == old(state)@.requests.remove(key),
                None => !old(state)@.requests.contains_key(key) && final(state)@ == old(state)@,
            }
        }),
{
    let key = data_hash(packet_data);
    let requesters = match state.take_request(key.as_slice()) {
        None => {
            return None;
        },
        Some(list) => list,
    };
    let ghost target = timeout_notices_for(requesters@.map_values(|q: RequestInfo| q@));
    let mut out: Vec<TimeoutNotice> = Vec::new();
    let mut i: usize = 0;
    proof {
        assert(out@.map_values(|n: TimeoutNotice| n@) =~= target.take(0));
    }
    while i < requesters.len()
        invariant
            i <= requesters@.len(),
            target == timeout_notices_for(requesters@.map_values(|q: RequestInfo| q@)),
            target.len() == requesters@.len(),
            out@.map_values(|n: TimeoutNotice| n@) == target.take(i as int),
        decreases requesters@.len() - i,
    {
        let rq = &requesters[i];
        let notice = TimeoutNotice { recipient: rq.sender.clone(), request_id: rq.sequence };
        proof {
            assert(target[i as int] == notice@);
        }
        let ghost pre = out@;
        out.push(notice);
        proof {
            assert(out@.map_values(|n: TimeoutNotice| n@) =~= pre.map_values(
                |n: TimeoutNotice| n@,
            ).push(notice@));
            assert(target.take(i + 1) =~= target.take(i as int).push(target[i as int]));
        }
        i = i + 1;
    }
    proof {
        assert(target.take(requesters@.len() as int) =~= target);
    }
    Some(out)
}

} // verus!
