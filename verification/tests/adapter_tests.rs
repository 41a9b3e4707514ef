use drip::ack::{ack_fail, ack_success};
use drip::error::ContractError;
use drip::execute::{request_price, PriceRequestOutcome};
use drip::expiration::Expiration;
use drip::ibc::{
    ibc_channel_close, ibc_channel_connect, ibc_channel_open, ibc_packet_ack, ibc_packet_receive,
    ibc_packet_timeout, process_twap_response, AckOutcome, IbcOrder,
};
use drip::state::RequestInfo;
use drip::icq::{AbciQueryResponse, AcknowledgementResult, CosmosResponse};
use drip::state::{AdapterState, ChannelInfo, IbcEndpoint, TwapSetting};
use drip::twap::{ArithmeticTwapToNowRequest, ArithmeticTwapToNowResponse, Timestamp};
use drip::wire::read_tagged_bytes;

fn adapter() -> AdapterState {
    AdapterState::new(vec![TwapSetting {
        pool_id: 678,
        base: "OSMO".to_string(),
        quote: "ATOM".to_string(),
        base_twap: "uosmo".to_string(),
        quote_twap: "uatom".to_string(),
    }])
}

fn channel() -> ChannelInfo {
    ChannelInfo {
        id: "channel-3".to_string(),
        counterparty_endpoint: IbcEndpoint {
            port_id: "icqhost".to_string(),
            channel_id: "channel-8".to_string(),
        },
        connection_id: "connection-1".to_string(),
    }
}

fn open_channel(state: &mut AdapterState) {
    ibc_channel_connect(state, channel(), IbcOrder::Unordered, "icq-1", Some("icq-1"))
        .expect("connect");
}

fn dispatch(state: &mut AdapterState, sender: &str, sequence: u64) -> Vec<u8> {
    match request_price(
        state,
        sender.to_string(),
        "OSMO".to_string(),
        "ATOM".to_string(),
        sequence,
        None,
        Expiration::AtTime(2_000_000_000_000_000_000),
    ) {
        Ok(PriceRequestOutcome::Dispatched { payload, .. }) => payload,
        other => panic!("expected dispatch, got {other:?}"),
    }
}

fn join(state: &mut AdapterState, sender: &str, sequence: u64) {
    match request_price(
        state,
        sender.to_string(),
        "OSMO".to_string(),
        "ATOM".to_string(),
        sequence,
        None,
        Expiration::AtTime(2_000_000_000_000_000_000),
    ) {
        Ok(PriceRequestOutcome::Joined) => {}
        other => panic!("expected join, got {other:?}"),
    }
}

fn success_ack_with(responses: Vec<AbciQueryResponse>) -> Vec<u8> {
    let cosmos = CosmosResponse { responses };
    let inner = AcknowledgementResult {
        result: cosmos.encode_to_vec(),
    };
    ack_success(&inner.encode_to_vec())
}

fn success_ack(twap: &str) -> Vec<u8> {
    let tw = ArithmeticTwapToNowResponse {
        arithmetic_twap: twap.to_string(),
    };
    success_ack_with(vec![AbciQueryResponse {
        code: 0,
        index: 0,
        key: vec![],
        value: tw.encode_to_vec(),
        height: 0,
    }])
}

#[test]
fn unsupported_pair_is_rejected_without_state_change() {
    let mut state = adapter();
    open_channel(&mut state);
    let err = request_price(
        &mut state,
        "alice".to_string(),
        "FOO".to_string(),
        "BAR".to_string(),
        1,
        None,
        Expiration::AtTime(2_000_000_000_000_000_000),
    )
    .unwrap_err();
    assert_eq!(err, ContractError::UnsupportedPairRequest);
    assert!(state.requests.is_empty());
}

#[test]
fn new_key_needs_open_channel_but_coalescing_does_not() {
    let mut state = adapter();
    let err = request_price(
        &mut state,
        "alice".to_string(),
        "OSMO".to_string(),
        "ATOM".to_string(),
        1,
        None,
        Expiration::AtTime(2_000_000_000_000_000_000),
    )
    .unwrap_err();
    assert_eq!(err, ContractError::IbcChannelNotOpen);
    assert!(state.requests.is_empty());

    open_channel(&mut state);
    let _payload = dispatch(&mut state, "alice", 1);

    // The channel goes away; a request for the pending key still coalesces.
    ibc_channel_close(&mut state);
    join(&mut state, "bob", 2);
    assert_eq!(state.requests.len(), 1);
    assert_eq!(state.requests[0].requesters.len(), 2);
}

#[test]
fn non_time_valid_from_is_ignored_not_rejected() {
    // Only an absolute-time window start converts; a height-based one is
    // ignored, so it produces the same payload and coalesces with a
    // request that gave none.
    let mut state = adapter();
    open_channel(&mut state);
    let _payload = dispatch(&mut state, "alice", 1);
    match request_price(
        &mut state,
        "bob".to_string(),
        "OSMO".to_string(),
        "ATOM".to_string(),
        2,
        Some(Expiration::AtHeight(5)),
        Expiration::AtTime(2_000_000_000_000_000_000),
    ) {
        Ok(PriceRequestOutcome::Joined) => {}
        other => panic!("expected join, got {other:?}"),
    }
    assert_eq!(state.requests.len(), 1);
    assert_eq!(state.requests[0].requesters.len(), 2);
}

#[test]
fn new_key_requires_absolute_time_expiration() {
    let mut state = adapter();
    open_channel(&mut state);
    let err = request_price(
        &mut state,
        "alice".to_string(),
        "OSMO".to_string(),
        "ATOM".to_string(),
        1,
        None,
        Expiration::AtHeight(500),
    )
    .unwrap_err();
    assert_eq!(err, ContractError::UnsupportedExpirationType);
    assert!(state.requests.is_empty());
}

#[test]
fn identical_requests_dispatch_once_and_fan_out_to_all() {
    let mut state = adapter();
    open_channel(&mut state);

    let payload = dispatch(&mut state, "alice", 1);
    join(&mut state, "bob", 2);
    join(&mut state, "alice", 3); // the same requester may appear twice
    assert_eq!(state.requests.len(), 1);
    assert_eq!(state.requests[0].requesters.len(), 3);

    let ack = success_ack("1.5");
    let resp = ibc_packet_ack(&mut state, &payload, &ack, 42);
    assert_eq!(resp.sequence, 42);
    assert_eq!(
        resp.outcome,
        AckOutcome::Resolved {
            price_atomics: 1_500_000_000_000_000_000,
        }
    );
    assert_eq!(resp.callbacks.len(), 3);
    let expected = [("alice", 1u64), ("bob", 2), ("alice", 3)];
    for (cb, (who, seq)) in resp.callbacks.iter().zip(expected.iter()) {
        assert_eq!(cb.recipient, *who);
        assert_eq!(cb.request_id, *seq);
        assert_eq!(cb.price_atomics, 1_500_000_000_000_000_000);
    }

    // The entry is released: the same acknowledgment again is now unknown.
    let resp = ibc_packet_ack(&mut state, &payload, &ack, 43);
    assert_eq!(resp.outcome, AckOutcome::UnknownRequest);
    assert!(resp.callbacks.is_empty());
}

#[test]
fn unknown_acknowledgment_is_a_tolerated_non_error() {
    let mut state = adapter();
    let resp = ibc_packet_ack(&mut state, b"never sent", &success_ack("1.5"), 7);
    assert_eq!(resp.outcome, AckOutcome::UnknownRequest);
    assert!(resp.callbacks.is_empty());
    assert!(state.requests.is_empty());
}

#[test]
fn error_acknowledgment_reports_and_releases_the_entry() {
    let mut state = adapter();
    open_channel(&mut state);
    let payload = dispatch(&mut state, "alice", 1);

    let resp = ibc_packet_ack(&mut state, &payload, &ack_fail("boom"), 9);
    assert_eq!(resp.outcome, AckOutcome::AckError("boom".to_string()));
    assert!(resp.callbacks.is_empty());

    // Released on the error path too: a timeout for the key finds nothing.
    assert!(ibc_packet_timeout(&mut state, &payload).is_none());
}

#[test]
fn malformed_and_invalid_acknowledgments_release_the_entry() {
    let cases: Vec<(Vec<u8>, ContractError)> = vec![
        (b"garbage".to_vec(), ContractError::MalformedAcknowledgement),
        (
            success_ack_with(vec![]),
            ContractError::InvalidResponseQuery,
        ),
        (
            success_ack_with(vec![
                AbciQueryResponse {
                    code: 0,
                    index: 0,
                    key: vec![],
                    value: vec![1],
                    height: 0,
                },
                AbciQueryResponse {
                    code: 0,
                    index: 0,
                    key: vec![],
                    value: vec![1],
                    height: 0,
                },
            ]),
            ContractError::InvalidResponseQuery,
        ),
        (
            success_ack_with(vec![AbciQueryResponse {
                code: 5,
                index: 0,
                key: vec![],
                value: vec![1],
                height: 0,
            }]),
            ContractError::InvalidResponseQueryCode,
        ),
        (
            success_ack_with(vec![AbciQueryResponse {
                code: 0,
                index: 0,
                key: vec![],
                value: vec![],
                height: 0,
            }]),
            ContractError::EmptyTwap,
        ),
        (
            success_ack("abc"),
            ContractError::InvalidTwapString {
                twap: "abc".to_string(),
            },
        ),
    ];
    for (ack, expected) in cases {
        let mut state = adapter();
        open_channel(&mut state);
        let payload = dispatch(&mut state, "alice", 1);
        let resp = ibc_packet_ack(&mut state, &payload, &ack, 1);
        assert_eq!(resp.outcome, AckOutcome::DecodeFailure(expected));
        assert!(resp.callbacks.is_empty());
        // Every terminal outcome on a known key releases the entry.
        assert!(state.requests.is_empty());
    }
}

#[test]
fn timeout_notifies_every_coalesced_requester_and_releases() {
    let mut state = adapter();
    open_channel(&mut state);
    let payload = dispatch(&mut state, "alice", 1);
    join(&mut state, "bob", 2);
    join(&mut state, "alice", 3);

    let notices = ibc_packet_timeout(&mut state, &payload).expect("known key");
    let expected = [("alice", 1u64), ("bob", 2), ("alice", 3)];
    assert_eq!(notices.len(), 3);
    for (n, (who, seq)) in notices.iter().zip(expected.iter()) {
        assert_eq!(n.recipient, *who);
        assert_eq!(n.request_id, *seq);
    }
    assert!(state.requests.is_empty());
    assert!(ibc_packet_timeout(&mut state, &payload).is_none());
}

#[test]
fn channel_open_rejects_while_open_whatever_the_proposal() {
    let mut state = adapter();
    open_channel(&mut state);
    for (order, version) in [
        (IbcOrder::Unordered, "icq-1"),
        (IbcOrder::Ordered, "icq-1"),
        (IbcOrder::Unordered, "bogus"),
    ] {
        let err = ibc_channel_open(&state, order, version, None).unwrap_err();
        assert_eq!(err, ContractError::IbcChannelAlreadyOpen);
    }
    let err =
        ibc_channel_connect(&mut state, channel(), IbcOrder::Unordered, "icq-1", None).unwrap_err();
    assert_eq!(err, ContractError::IbcChannelAlreadyOpen);
}

#[test]
fn handshake_validates_order_and_version() {
    let state = adapter();
    assert!(ibc_channel_open(&state, IbcOrder::Unordered, "icq-1", None).is_ok());
    assert!(ibc_channel_open(&state, IbcOrder::Unordered, "icq-1", Some("icq-1")).is_ok());
    assert_eq!(
        ibc_channel_open(&state, IbcOrder::Ordered, "icq-1", None).unwrap_err(),
        ContractError::OnlyOrderedChannel
    );
    assert_eq!(
        ibc_channel_open(&state, IbcOrder::Unordered, "icq-2", None).unwrap_err(),
        ContractError::InvalidIbcVersion {
            version: "icq-2".to_string()
        }
    );
    assert_eq!(
        ibc_channel_open(&state, IbcOrder::Unordered, "icq-1", Some("other")).unwrap_err(),
        ContractError::InvalidIbcVersion {
            version: "other".to_string()
        }
    );
}

#[test]
fn channel_close_clears_and_is_idempotent() {
    let mut state = adapter();
    open_channel(&mut state);
    assert_eq!(ibc_channel_close(&mut state), Some("channel-3".to_string()));
    assert!(state.channel.is_none());
    assert_eq!(ibc_channel_close(&mut state), None);
}

#[test]
fn twap_responses_resolve_into_callbacks() {
    let tw = ArithmeticTwapToNowResponse {
        arithmetic_twap: "0.25".to_string(),
    };
    let cosmos = CosmosResponse {
        responses: vec![AbciQueryResponse {
            code: 0,
            index: 0,
            key: vec![],
            value: tw.encode_to_vec(),
            height: 0,
        }],
    };
    let inner = AcknowledgementResult {
        result: cosmos.encode_to_vec(),
    };
    let requesters = vec![
        RequestInfo {
            sender: "alice".to_string(),
            sequence: 11,
        },
        RequestInfo {
            sender: "bob".to_string(),
            sequence: 12,
        },
    ];
    let callbacks = process_twap_response(&inner, &requesters).expect("resolves");
    assert_eq!(callbacks.len(), 2);
    assert_eq!(callbacks[0].recipient, "alice");
    assert_eq!(callbacks[0].request_id, 11);
    assert_eq!(callbacks[0].price_atomics, 250_000_000_000_000_000);
    assert_eq!(callbacks[1].recipient, "bob");
    assert_eq!(callbacks[1].request_id, 12);

    let bad = AcknowledgementResult { result: vec![0xff] };
    assert_eq!(
        process_twap_response(&bad, &requesters).unwrap_err(),
        ContractError::MalformedAcknowledgement
    );
}

#[test]
fn packets_are_never_received() {
    assert_eq!(
        ibc_packet_receive().unwrap_err(),
        ContractError::IbcReceiveNotAccepted
    );
}

#[test]
fn dispatched_payload_carries_the_domain_sub_request() {
    let mut state = adapter();
    open_channel(&mut state);
    let valid_from = Some(Expiration::AtTime(1_600_000_000_123_456_789));
    let payload = match request_price(
        &mut state,
        "alice".to_string(),
        "OSMO".to_string(),
        "ATOM".to_string(),
        1,
        valid_from,
        Expiration::AtTime(2_000_000_000_000_000_000),
    ) {
        Ok(PriceRequestOutcome::Dispatched {
            channel_id,
            payload,
            timeout_nanos,
        }) => {
            assert_eq!(channel_id, "channel-3");
            assert_eq!(timeout_nanos, 2_000_000_000_000_000_000);
            payload
        }
        other => panic!("expected dispatch, got {other:?}"),
    };

    let packet = drip::icq::InterchainQueryPacketData::decode(&payload).expect("packet");
    assert_eq!(packet.memo, "TWAP ICQ request");

    // The packet data holds one length-prefixed ABCI query.
    let (abci_bytes, consumed) = read_tagged_bytes(&packet.data, 0, 0x0a).expect("one query");
    assert_eq!(consumed, packet.data.len());
    let (request_bytes, path_start) = read_tagged_bytes(&abci_bytes, 0, 0x0a).expect("data");
    let (path_bytes, _) = read_tagged_bytes(&abci_bytes, path_start, 0x12).expect("path");
    assert_eq!(
        String::from_utf8(path_bytes).unwrap(),
        "/osmosis.twap.v1beta1.Query/ArithmeticTwapToNow"
    );

    let sub = ArithmeticTwapToNowRequest::decode(&request_bytes).expect("sub-request");
    assert_eq!(sub.pool_id, 678);
    assert_eq!(sub.base_asset, "uosmo");
    assert_eq!(sub.quote_asset, "uatom");
    assert_eq!(
        sub.start_time,
        Some(Timestamp {
            seconds: 1_600_000_000,
            nanos: 123_456_789,
        })
    );
}
