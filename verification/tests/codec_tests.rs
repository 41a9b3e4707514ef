use drip::ack::{ack_fail, ack_success, AckWrapper};
use drip::decimal::{parse_decimal_atomics, DECIMAL_FRACTIONAL};
use drip::hashing::data_hash;
use drip::icq::{
    AbciQueryRequest, AbciQueryResponse, AcknowledgementResult, CosmosQuery, CosmosResponse,
    InterchainQueryPacketAck, InterchainQueryPacketData,
};
use drip::twap::{ArithmeticTwapToNowRequest, ArithmeticTwapToNowResponse, Timestamp};
use std::str::FromStr;

#[test]
fn twap_request_round_trip_without_start_time() {
    let req = ArithmeticTwapToNowRequest {
        pool_id: 1,
        base_asset: "uosmo".to_string(),
        quote_asset: "uatom".to_string(),
        start_time: None,
    };
    let bytes = req.encode_to_vec();
    let mut expected = vec![0x08, 0x01, 0x12, 0x05];
    expected.extend_from_slice(b"uosmo");
    expected.extend_from_slice(&[0x1a, 0x05]);
    expected.extend_from_slice(b"uatom");
    assert_eq!(bytes, expected);
    assert_eq!(ArithmeticTwapToNowRequest::decode(&bytes), Some(req));
}

#[test]
fn twap_request_round_trip_with_start_time() {
    let req = ArithmeticTwapToNowRequest {
        pool_id: 300,
        base_asset: "ibc/27394FB092D2ECCD56123C74F36E4C1F926001CEADA9CA97EA622B25F41E5EB2"
            .to_string(),
        quote_asset: "uosmo".to_string(),
        start_time: Some(Timestamp {
            seconds: 1_600_000_000,
            nanos: 999_999_999,
        }),
    };
    let bytes = req.encode_to_vec();
    let back = ArithmeticTwapToNowRequest::decode(&bytes).expect("decodes");
    assert_eq!(back.pool_id, 300);
    assert_eq!(back.base_asset, req.base_asset);
    assert_eq!(back.quote_asset, req.quote_asset);
    assert_eq!(back.start_time, req.start_time);
}

#[test]
fn multi_byte_varints_round_trip() {
    // 300 = 0b10_0101100: low group 0x2c with the continuation bit, then 2.
    let req = ArithmeticTwapToNowRequest {
        pool_id: 300,
        base_asset: "a".to_string(),
        quote_asset: "b".to_string(),
        start_time: None,
    };
    let bytes = req.encode_to_vec();
    assert_eq!(&bytes[..3], &[0x08, 0xac, 0x02]);
    assert_eq!(ArithmeticTwapToNowRequest::decode(&bytes), Some(req));
}

#[test]
fn malformed_sub_requests_are_rejected() {
    assert_eq!(ArithmeticTwapToNowRequest::decode(&[]), None);
    assert_eq!(ArithmeticTwapToNowRequest::decode(&[0x08]), None);
    // Wrong leading tag.
    assert_eq!(ArithmeticTwapToNowRequest::decode(&[0x10, 0x01]), None);
    // Trailing garbage after a complete message.
    let req = ArithmeticTwapToNowRequest {
        pool_id: 1,
        base_asset: "x".to_string(),
        quote_asset: "y".to_string(),
        start_time: None,
    };
    let mut bytes = req.encode_to_vec();
    bytes.push(0);
    assert_eq!(ArithmeticTwapToNowRequest::decode(&bytes), None);
    // A string field that is not UTF-8.
    assert_eq!(
        ArithmeticTwapToNowRequest::decode(&[0x08, 0x01, 0x12, 0x01, 0xff, 0x1a, 0x00]),
        None
    );
}

#[test]
fn twap_response_round_trip() {
    let tw = ArithmeticTwapToNowResponse {
        arithmetic_twap: "1.523456789012345678".to_string(),
    };
    let bytes = tw.encode_to_vec();
    assert_eq!(bytes[0], 0x0a);
    assert_eq!(ArithmeticTwapToNowResponse::decode(&bytes), Some(tw));
}

#[test]
fn packet_data_round_trip() {
    let packet = InterchainQueryPacketData {
        data: vec![1, 2, 3],
        memo: "TWAP ICQ request".to_string(),
    };
    let bytes = packet.encode_to_vec();
    assert_eq!(InterchainQueryPacketData::decode(&bytes), Some(packet));
}

#[test]
fn envelopes_round_trip() {
    let inner = AcknowledgementResult {
        result: vec![9, 8, 7],
    };
    let bytes = inner.encode_to_vec();
    assert_eq!(AcknowledgementResult::decode(&bytes), Some(inner));

    let ack = InterchainQueryPacketAck { data: vec![5] };
    let bytes = ack.encode_to_vec();
    assert_eq!(InterchainQueryPacketAck::decode(&bytes), Some(ack));
}

#[test]
fn cosmos_query_encodes_each_request_in_order() {
    let q1 = AbciQueryRequest {
        data: vec![1],
        path: "/a".to_string(),
        height: 0,
        prove: false,
    };
    let q2 = AbciQueryRequest {
        data: vec![2, 2],
        path: "/b".to_string(),
        height: 7,
        prove: true,
    };
    let query = CosmosQuery {
        requests: vec![q1.clone(), q2.clone()],
    };
    let bytes = query.encode_to_vec();
    let mut expected = Vec::new();
    let e1 = q1.encode_to_vec();
    let e2 = q2.encode_to_vec();
    expected.push(0x0a);
    expected.push(e1.len() as u8);
    expected.extend_from_slice(&e1);
    expected.push(0x0a);
    expected.push(e2.len() as u8);
    expected.extend_from_slice(&e2);
    assert_eq!(bytes, expected);
}

#[test]
fn cosmos_response_round_trip() {
    let resp = CosmosResponse {
        responses: vec![
            AbciQueryResponse {
                code: 0,
                index: 3,
                key: vec![1],
                value: vec![2, 3],
                height: 11,
            },
            AbciQueryResponse {
                code: 4,
                index: 0,
                key: vec![],
                value: vec![],
                height: 0,
            },
        ],
    };
    let bytes = resp.encode_to_vec();
    assert_eq!(CosmosResponse::decode(&bytes), Some(resp));
    assert_eq!(
        CosmosResponse::decode(&[]),
        Some(CosmosResponse { responses: vec![] })
    );
    assert_eq!(CosmosResponse::decode(&[0x0a]), None);
}

#[test]
fn ack_wrapper_round_trips_both_arms() {
    let ok = ack_success(&[1, 2, 3]);
    assert_eq!(AckWrapper::decode(&ok), Some(AckWrapper::Result(vec![1, 2, 3])));

    let fail = ack_fail("no such pool");
    assert_eq!(
        AckWrapper::decode(&fail),
        Some(AckWrapper::Error("no such pool".to_string()))
    );

    assert_eq!(AckWrapper::decode(&[]), None);
    assert_eq!(AckWrapper::decode(&[0x01, 0x00]), None);
}

#[test]
fn content_hash_is_sha256() {
    // The SHA-256 digest of the empty input.
    let expected: [u8; 32] = [
        0xe3, 0xb0, 0xc4, 0x42, 0x98, 0xfc, 0x1c, 0x14, 0x9a, 0xfb, 0xf4, 0xc8, 0x99, 0x6f,
        0xb9, 0x24, 0x27, 0xae, 0x41, 0xe4, 0x64, 0x9b, 0x93, 0x4c, 0xa4, 0x95, 0x99, 0x1b,
        0x78, 0x52, 0xb8, 0x55,
    ];
    assert_eq!(data_hash(b""), expected.to_vec());

    // The digest of "abc", the classic known answer.
    let expected_abc: [u8; 32] = [
        0xba, 0x78, 0x16, 0xbf, 0x8f, 0x01, 0xcf, 0xea, 0x41, 0x41, 0x40, 0xde, 0x5d, 0xae,
        0x22, 0x23, 0xb0, 0x03, 0x61, 0xa3, 0x96, 0x17, 0x7a, 0x9c, 0xb4, 0x10, 0xff, 0x61,
        0xf2, 0x00, 0x15, 0xad,
    ];
    assert_eq!(data_hash(b"abc"), expected_abc.to_vec());
}

#[test]
fn decimal_strings_parse_to_atomics() {
    assert_eq!(parse_decimal_atomics("1.5"), Some(1_500_000_000_000_000_000));
    assert_eq!(parse_decimal_atomics("0"), Some(0));
    assert_eq!(parse_decimal_atomics("2"), Some(2 * DECIMAL_FRACTIONAL));
    assert_eq!(parse_decimal_atomics("0.000000000000000001"), Some(1));
    assert_eq!(parse_decimal_atomics("abc"), None);
    assert_eq!(parse_decimal_atomics(""), None);
    assert_eq!(parse_decimal_atomics("1.0000000000000000001"), None);
}

#[test]
fn decimal_parse_matches_the_host_library() {
    for s in ["1.5", "0.25", "123.456", "0", "340282366920938463463.374607431768211455"] {
        let ours = parse_decimal_atomics(s);
        let theirs = cosmwasm_std::Decimal::from_str(s).ok().map(|d| d.atomics().u128());
        assert_eq!(ours, theirs);
    }
}
