//! Interchain-query envelopes: the outbound packet that carries a batch of
//! ABCI query requests, and the acknowledgment envelopes that carry the
//! matching responses back.
//!
//! As in `twap`, every message has a spec-level encoding and parse, and the
//! executable functions are specified against them.

use crate::wire::{
    enc_tagged_bytes, enc_tagged_str, enc_tagged_varint, lemma_parse_field_len,
    lemma_tagged_bytes_roundtrip, lemma_tagged_varint_roundtrip, parse_tagged_bytes,
    parse_tagged_str, parse_tagged_varint, read_tagged_bytes, read_tagged_str, read_tagged_varint,
    write_tagged_bytes, write_tagged_str, write_tagged_varint,
};
use vstd::prelude::*;

verus! {

/// The outbound interchain-query packet: an encoded batch of requests plus
/// a free-form memo.
#[derive(Clone, Debug, PartialEq, Eq)]
pub struct InterchainQueryPacketData {
    pub data: Vec<u8>,
    /// optional memo
    pub memo: String,
}

/// The inner envelope of a successful acknowledgment: the encoded batch of
/// responses.
#[derive(Clone, Debug, PartialEq, Eq)]
pub struct AcknowledgementResult {
    pub result: Vec<u8>,
}

/// An acknowledgment of an interchain-query packet, with the
/// non-deterministic response fields left empty.
#[derive(Clone, Debug, PartialEq, Eq)]
pub struct InterchainQueryPacketAck {
    pub data: Vec<u8>,
}

/// A batch of ABCI query requests sent to the host chain.
#[derive(Clone, Debug, PartialEq, Eq)]
pub struct CosmosQuery {
    pub requests: Vec<AbciQueryRequest>,
}

/// A batch of ABCI query responses received from the host chain.
#[derive(Clone, Debug, PartialEq, Eq)]
pub struct CosmosResponse {
    pub responses: Vec<AbciQueryResponse>,
}

/// One ABCI query: an encoded domain request plus the query path that names
/// the endpoint answering it.
#[derive(Clone, Debug, PartialEq, Eq)]
pub struct AbciQueryRequest {
    pub data: Vec<u8>,
    pub path: String,
    pub height: i64,
    pub prove: bool,
}

/// One ABCI query response: a status code and the encoded domain response
/// in `value`.
#[derive(Clone, Debug, PartialEq, Eq)]
pub struct AbciQueryResponse {
    pub code: u32,
    pub index: i64,
    pub key: Vec<u8>,
    pub value: Vec<u8>,
    pub height: i64,
}

/// The mathematical value of an [`InterchainQueryPacketData`].
pub struct PacketDataV {
    pub data: Seq<u8>,
    pub memo: Seq<char>,
}

/// The mathematical value of an [`AbciQueryRequest`].
pub struct AbciRequestV {
    pub data: Seq<u8>,
    pub path: Seq<char>,
    pub height: i64,
    pub prove: bool,
}

/// The mathematical value of an [`AbciQueryResponse`].
pub struct AbciResponseV {
    pub code: u32,
    pub index: i64,
    pub key: Seq<u8>,
    pub value: Seq<u8>,
    pub height: i64,
}

impl View for InterchainQueryPacketData {
    type V = PacketDataV;

    open spec fn view(&self) -> PacketDataV {
        PacketDataV { data: self.data@, memo: self.memo@ }
    }
}

impl View for AcknowledgementResult {
    type V = Seq<u8>;

    open spec fn view(&self) -> Seq<u8> {
        self.result@
    }
}

impl View for InterchainQueryPacketAck {
    type V = Seq<u8>;

    open spec fn view(&self) -> Seq<u8> {
        self.data@
    }
}

impl View for AbciQueryRequest {
    type V = AbciRequestV;

    open spec fn view(&self) -> AbciRequestV {
        AbciRequestV {
            data: self.data@,
            path: self.path@,
            height: self.height,
            prove: self.prove,
        }
    }
}

impl View for AbciQueryResponse {
    type V = AbciResponseV;

    open spec fn view(&self) -> AbciResponseV {
        AbciResponseV {
            code: self.code,
            index: self.index,
            key: self.key@,
            value: self.value@,
            height: self.height,
        }
    }
}

impl View for CosmosQuery {
    type V = Seq<AbciRequestV>;

    open spec fn view(&self) -> Seq<AbciRequestV> {
        self.requests@.map_values(|q: AbciQueryRequest| q@)
    }
}

impl View for CosmosResponse {
    type V = Seq<AbciResponseV>;

    open spec fn view(&self) -> Seq<AbciResponseV> {
        self.responses@.map_values(|q: AbciQueryResponse| q@)
    }
}

pub open spec fn wf_packet_data(p: PacketDataV) -> bool {
    &&& p.data.len() < 0x1_0000_0000_0000_0000
    &&& 4 * p.memo.len() < 0x1_0000_0000_0000_0000
}

pub open spec fn wf_abci_request(q: AbciRequestV) -> bool {
    &&& 0 <= q.height
    &&& q.data.len() < 0x1_0000_0000_0000_0000
    &&& 4 * q.path.len() < 0x1_0000_0000_0000_0000
}

pub open spec fn wf_abci_response(q: AbciResponseV) -> bool {
    &&& 0 <= q.index
    &&& 0 <= q.height
    &&& q.key.len() < 0x1_0000_0000_0000_0000
    &&& q.value.len() < 0x1_0000_0000_0000_0000
}

pub open spec fn enc_packet_data(p: PacketDataV) -> Seq<u8> {
    enc_tagged_bytes(0x0a, p.data) + enc_tagged_str(0x12, p.memo)
}

pub open spec fn parse_packet_data(s: Seq<u8>) -> Option<PacketDataV> {
    match parse_tagged_bytes(s, 0x0a) {
        None => None,
        Some((data, n1)) => match parse_tagged_str(s.skip(n1), 0x12) {
            None => None,
            Some((memo, n2)) => {
                if n1 + n2 == s.len() {
                    Some(PacketDataV { data, memo })
                } else {
                    None
                }
            },
        },
    }
}

pub proof fn lemma_packet_data_roundtrip(p: PacketDataV)
    requires
        wf_packet_data(p),
    ensures
        parse_packet_data(enc_packet_data(p)) == Some(p),
{
    let e1 = enc_tagged_bytes(0x0a, p.data);
    let e2 = enc_tagged_str(0x12, p.memo);
    lemma_tagged_bytes_roundtrip(0x0a, p.data, e2);
    assert((e1 + e2).skip(e1.len() as int) =~= e2);
    crate::wire::lemma_tagged_str_roundtrip(0x12, p.memo, Seq::<u8>::empty());
    assert(e2 + Seq::<u8>::empty() =~= e2);
}

/// The encoding of a one-field byte envelope, shared by
/// [`AcknowledgementResult`] and [`InterchainQueryPacketAck`].
pub open spec fn enc_bytes_envelope(b: Seq<u8>) -> Seq<u8> {
    enc_tagged_bytes(0x0a, b)
}

pub open spec fn parse_bytes_envelope(s: Seq<u8>) -> Option<Seq<u8>> {
    match parse_tagged_bytes(s, 0x0a) {
        None => None,
        Some((b, n)) => {
            if n == s.len() {
                Some(b)
            } else {
                None
            }
        },
    }
}

pub proof fn lemma_bytes_envelope_roundtrip(b: Seq<u8>)
    requires
        b.len() < 0x1_0000_0000_0000_0000,
    ensures
        parse_bytes_envelope(enc_bytes_envelope(b)) == Some(b),
{
    lemma_tagged_bytes_roundtrip(0x0a, b, Seq::<u8>::empty());
    assert(enc_tagged_bytes(0x0a, b) + Seq::<u8>::empty() =~= enc_bytes_envelope(b));
}

pub open spec fn enc_abci_request(q: AbciRequestV) -> Seq<u8> {
    enc_tagged_bytes(0x0a, q.data) + enc_tagged_str(0x12, q.path) + enc_tagged_varint(
        0x18,
        q.height as u64,
    ) + enc_tagged_varint(
        0x20,
        if q.prove {
            1
        } else {
            0
        },
    )
}

/// The encoding of a batch of requests: each one a length-prefixed field.
pub open spec fn enc_abci_requests(rs: Seq<AbciRequestV>) -> Seq<u8>
    decreases rs.len(),
{
    if rs.len() == 0 {
        Seq::<u8>::empty()
    } else {
        enc_tagged_bytes(0x0a, enc_abci_request(rs[0])) + enc_abci_requests(rs.drop_first())
    }
}

pub open spec fn enc_abci_response(q: AbciResponseV) -> Seq<u8> {
    enc_tagged_varint(0x08, q.code as u64) + enc_tagged_varint(0x10, q.index as u64)
        + enc_tagged_bytes(0x1a, q.key) + enc_tagged_bytes(0x22, q.value) + enc_tagged_varint(
        0x28,
        q.height as u64,
    )
}

pub open spec fn parse_abci_response(s: Seq<u8>) -> Option<AbciResponseV> {
    match parse_tagged_varint(s, 0x08) {
        None => None,
        Some((code, n1)) => match parse_tagged_varint(s.skip(n1), 0x10) {
            None => None,
            Some((index, n2)) => match parse_tagged_bytes(s.skip(n1 + n2), 0x1a) {
                None => None,
                Some((key, n3)) => match parse_tagged_bytes(s.skip(n1 + n2 + n3), 0x22) {
                    None => None,
                    Some((value, n4)) => match parse_tagged_varint(
                        s.skip(n1 + n2 + n3 + n4),
                        0x28,
                    ) {
                        None => None,
                        Some((height, n5)) => {
                            if n1 + n2 + n3 + n4 + n5 == s.len() && code < 0x1_0000_0000 && index
                                < 0x8000_0000_0000_0000 && height < 0x8000_0000_0000_0000 {
                                Some(
                                    AbciResponseV {
                                        code: code as u32,
                                        index: index as i64,
                                        key,
                                        value,
                                        height: height as i64,
                                    },
                                )
                            } else {
                                None
                            }
                        },
                    },
                },
            },
        },
    }
}

/// The encoding of a batch of responses: each one a length-prefixed field.
pub open spec fn enc_abci_responses(rs: Seq<AbciResponseV>) -> Seq<u8>
    decreases rs.len(),
{
    if rs.len() == 0 {
        Seq::<u8>::empty()
    } else {
        enc_tagged_bytes(0x0a, enc_abci_response(rs[0])) + enc_abci_responses(rs.drop_first())
    }
}

/// Parses a batch of responses: length-prefixed fields until the input is
/// exhausted.
pub open spec fn parse_abci_responses(s: Seq<u8>) -> Option<Seq<AbciResponseV>>
    decreases s.len()
        via parse_abci_responses_dec
{
    if s.len() == 0 {
        Some(Seq::<AbciResponseV>::empty())
    } else {
        match parse_tagged_bytes(s, 0x0a) {
            None => None,
            Some((payload, n)) => match parse_abci_response(payload) {
                None => None,
                Some(resp) => match parse_abci_responses(s.skip(n)) {
                    None => None,
                    Some(rest) => Some(seq![resp] + rest),
                },
            },
        }
    }
}

#[via_fn]
proof fn parse_abci_responses_dec(s: Seq<u8>) {
    lemma_parse_field_len(s, 0x0a);
}

/// Decoding inverts encoding for every valid query response.
pub proof fn lemma_abci_response_roundtrip(q: AbciResponseV)
    requires
        wf_abci_response(q),
    ensures
        parse_abci_response(enc_abci_response(q)) == Some(q),
{
    let e1 = enc_tagged_varint(0x08, q.code as u64);
    let e2 = enc_tagged_varint(0x10, q.index as u64);
    let e3 = enc_tagged_bytes(0x1a, q.key);
    let e4 = enc_tagged_bytes(0x22, q.value);
    let e5 = enc_tagged_varint(0x28, q.height as u64);
    let s = enc_abci_response(q);
    assert(s =~= e1 + (e2 + e3 + e4 + e5));
    lemma_tagged_varint_roundtrip(0x08, q.code as u64, e2 + e3 + e4 + e5);
    let n1 = e1.len() as int;
    assert(s.skip(n1) =~= e2 + (e3 + e4 + e5));
    lemma_tagged_varint_roundtrip(0x10, q.index as u64, e3 + e4 + e5);
    let n2 = e2.len() as int;
    assert(s.skip(n1 + n2) =~= e3 + (e4 + e5));
    lemma_tagged_bytes_roundtrip(0x1a, q.key, e4 + e5);
    let n3 = e3.len() as int;
    assert(s.skip(n1 + n2 + n3) =~= e4 + e5);
    lemma_tagged_bytes_roundtrip(0x22, q.value, e5);
    let n4 = e4.len() as int;
    assert(s.skip(n1 + n2 + n3 + n4) =~= e5);
    lemma_tagged_varint_roundtrip(0x28, q.height as u64, Seq::<u8>::empty());
    assert(e5 + Seq::<u8>::empty() =~= e5);
}

/// Decoding inverts encoding for every valid batch of query responses.
pub proof fn lemma_abci_responses_roundtrip(rs: Seq<AbciResponseV>)
    requires
        forall|i: int| 0 <= i < rs.len() ==> wf_abci_response(#[trigger] rs[i]),
        forall|i: int|
            0 <= i < rs.len() ==> (#[trigger] enc_abci_response(rs[i])).len()
                < 0x1_0000_0000_0000_0000,
    ensures
        parse_abci_responses(enc_abci_responses(rs)) == Some(rs),
    decreases rs.len(),
{
    if rs.len() == 0 {
        assert(enc_abci_responses(rs) =~= Seq::<u8>::empty());
    } else {
        let head = rs[0];
        let rest = rs.drop_first();
        let e0 = enc_tagged_bytes(0x0a, enc_abci_response(head));
        let s = enc_abci_responses(rs);
        assert(s == e0 + enc_abci_responses(rest));
        lemma_tagged_bytes_roundtrip(0x0a, enc_abci_response(head), enc_abci_responses(rest));
        lemma_abci_response_roundtrip(head);
        assert(s.skip(e0.len() as int) =~= enc_abci_responses(rest));
        assert(forall|i: int| 0 <= i < rest.len() ==> rest[i] == rs[i + 1]);
        lemma_abci_responses_roundtrip(rest);
        assert(s.len() > 0);
        assert(seq![head] + rest =~= rs);
    }
}

/// An encoded response is as short as its key and value allow.
pub proof fn lemma_enc_abci_response_len(q: AbciResponseV)
    requires
        q.key.len() < 0x1_0000_0000_0000_0000,
        q.value.len() < 0x1_0000_0000_0000_0000,
    ensures
        enc_abci_response(q).len() <= 55 + q.key.len() + q.value.len(),
{
    crate::wire::lemma_varint_enc_len_max(q.code as u64);
    crate::wire::lemma_varint_enc_len_max(q.index as u64);
    crate::wire::lemma_varint_enc_len_max(q.height as u64);
    crate::wire::lemma_varint_enc_len_max(q.key.len() as u64);
    crate::wire::lemma_varint_enc_len_max(q.value.len() as u64);
}

/// A batch of one response is that response's field and nothing more.
pub proof fn lemma_enc_abci_responses_singleton(q: AbciResponseV)
    requires
        enc_abci_response(q).len() < 0x1_0000_0000_0000_0000,
    ensures
        enc_abci_responses(seq![q]) == enc_tagged_bytes(0x0a, enc_abci_response(q)),
        enc_abci_responses(seq![q]).len() <= 11 + enc_abci_response(q).len(),
{
    assert(seq![q].drop_first() =~= Seq::<AbciResponseV>::empty());
    assert(enc_abci_responses(seq![q].drop_first()) == Seq::<u8>::empty());
    assert(enc_tagged_bytes(0x0a, enc_abci_response(q)) + Seq::<u8>::empty() =~= enc_tagged_bytes(
        0x0a,
        enc_abci_response(q),
    ));
    crate::wire::lemma_varint_enc_len_max(enc_abci_response(q).len() as u64);
}

/// Appending one request to a batch appends its field to the encoding.
pub proof fn lemma_enc_abci_requests_push(rs: Seq<AbciRequestV>, q: AbciRequestV)
    ensures
        enc_abci_requests(rs.push(q)) == enc_abci_requests(rs) + enc_tagged_bytes(
            0x0a,
            enc_abci_request(q),
        ),
    decreases rs.len(),
{
    if rs.len() == 0 {
        assert(rs.push(q)[0] == q);
        assert(rs.push(q).drop_first() =~= rs);
        assert(enc_abci_requests(rs.push(q)) =~= enc_abci_requests(rs) + enc_tagged_bytes(
            0x0a,
            enc_abci_request(q),
        ));
    } else {
        assert(rs.push(q)[0] == rs[0]);
        assert(rs.push(q).drop_first() =~= rs.drop_first().push(q));
        lemma_enc_abci_requests_push(rs.drop_first(), q);
        assert(enc_abci_requests(rs.push(q)) =~= enc_abci_requests(rs) + enc_tagged_bytes(
            0x0a,
            enc_abci_request(q),
        ));
    }
}

/// Appending one response to a batch appends its field to the encoding.
pub proof fn lemma_enc_abci_responses_push(rs: Seq<AbciResponseV>, q: AbciResponseV)
    ensures
        enc_abci_responses(rs.push(q)) == enc_abci_responses(rs) + enc_tagged_bytes(
            0x0a,
            enc_abci_response(q),
        ),
    decreases rs.len(),
{
    if rs.len() == 0 {
        assert(rs.push(q)[0] == q);
        assert(rs.push(q).drop_first() =~= rs);
        assert(enc_abci_responses(rs.push(q)) =~= enc_abci_responses(rs) + enc_tagged_bytes(
            0x0a,
            enc_abci_response(q),
        ));
    } else {
        assert(rs.push(q)[0] == rs[0]);
        assert(rs.push(q).drop_first() =~= rs.drop_first().push(q));
        lemma_enc_abci_responses_push(rs.drop_first(), q);
        assert(enc_abci_responses(rs.push(q)) =~= enc_abci_responses(rs) + enc_tagged_bytes(
            0x0a,
            enc_abci_response(q),
        ));
    }
}

impl InterchainQueryPacketData {
    /// Serializes this packet in the wire format.
    pub fn encode_to_vec(&self) -> (out: Vec<u8>)
        ensures
            out@ == enc_packet_data(self@),
    {
        let mut out: Vec<u8> = Vec::new();
        write_tagged_bytes(&mut out, 0x0a, self.data.as_slice());
        write_tagged_str(&mut out, 0x12, self.memo.as_str());
        proof {
            assert(out@ =~= enc_packet_data(self@));
        }
        out
    }

    /// Parses a packet from a whole buffer.
    pub fn decode(bytes: &[u8]) -> (r: Option<InterchainQueryPacketData>)
        ensures
            r matches Some(m) ==> parse_packet_data(bytes@) == Some(m@),
            r is None ==> parse_packet_data(bytes@) is None,
    {
        let blen: usize = bytes.len();
        proof {
            assert(bytes@.skip(0) =~= bytes@);
        }
        let (data, n1) = match read_tagged_bytes(bytes, 0, 0x0a) {
            None => {
                return None;
            },
            Some(p) => p,
        };
        let (memo, n2) = match read_tagged_str(bytes, n1, 0x12) {
            None => {
                return None;
            },
            Some(p) => p,
        };
        if n1 + n2 == blen {
            Some(InterchainQueryPacketData { data, memo })
        } else {
            None
        }
    }
}

impl AcknowledgementResult {
    /// Serializes this envelope in the wire format.
    pub fn encode_to_vec(&self) -> (out: Vec<u8>)
        ensures
            out@ == enc_bytes_envelope(self@),
    {
        let mut out: Vec<u8> = Vec::new();
        write_tagged_bytes(&mut out, 0x0a, self.result.as_slice());
        proof {
            assert(out@ =~= enc_bytes_envelope(self@));
        }
        out
    }

    /// Parses an envelope from a whole buffer.
    pub fn decode(bytes: &[u8]) -> (r: Option<AcknowledgementResult>)
        ensures
            r matches Some(m) ==> parse_bytes_envelope(bytes@) == Some(m@),
            r is None ==> parse_bytes_envelope(bytes@) is None,
    {
        let blen: usize = bytes.len();
        proof {
            assert(bytes@.skip(0) =~= bytes@);
        }
        match read_tagged_bytes(bytes, 0, 0x0a) {
            None => None,
            Some((b, n)) => {
                if n == blen {
                    Some(AcknowledgementResult { result: b })
                } else {
                    None
                }
            },
        }
    }
}

impl InterchainQueryPacketAck {
    /// Serializes this acknowledgment in the wire format.
    pub fn encode_to_vec(&self) -> (out: Vec<u8>)
        ensures
            out@ == enc_bytes_envelope(self@),
    {
        let mut out: Vec<u8> = Vec::new();
        write_tagged_bytes(&mut out, 0x0a, self.data.as_slice());
        proof {
            assert(out@ =~= enc_bytes_envelope(self@));
        }
        out
    }

    /// Parses an acknowledgment from a whole buffer.
    pub fn decode(bytes: &[u8]) -> (r: Option<InterchainQueryPacketAck>)
        ensures
            r matches Some(m) ==> parse_bytes_envelope(bytes@) == Some(m@),
            r is None ==> parse_bytes_envelope(bytes@) is None,
    {
        let blen: usize = bytes.len();
        proof {
            assert(bytes@.skip(0) =~= bytes@);
        }
        match read_tagged_bytes(bytes, 0, 0x0a) {
            None => None,
            Some((b, n)) => {
                if n == blen {
                    Some(InterchainQueryPacketAck { data: b })
                } else {
                    None
                }
            },
        }
    }
}

impl AbciQueryRequest {
    /// Serializes this query in the wire format.
    pub fn encode_to_vec(&self) -> (out: Vec<u8>)
        requires
            0 <= self.height,
        ensures
            out@ == enc_abci_request(self@),
    {
        let mut out: Vec<u8> = Vec::new();
        write_tagged_bytes(&mut out, 0x0a, self.data.as_slice());
        write_tagged_str(&mut out, 0x12, self.path.as_str());
        write_tagged_varint(&mut out, 0x18, self.height as u64);
        write_tagged_varint(
            &mut out,
            0x20,
            if self.prove {
                1
            } else {
                0
            },
        );
        proof {
            assert(out@ =~= enc_abci_request(self@));
        }
        out
    }
}

impl CosmosQuery {
    /// Serializes this batch in the wire format.
    pub fn encode_to_vec(&self) -> (out: Vec<u8>)
        requires
            forall|i: int| 0 <= i < self@.len() ==> 0 <= #[trigger] self@[i].height,
        ensures
            out@ == enc_abci_requests(self@),
    {
        let mut out: Vec<u8> = Vec::new();
        let mut i: usize = 0;
        proof {
            assert(self@.take(0) =~= Seq::<AbciRequestV>::empty());
        }
        while i < self.requests.len()
            invariant
                i <= self.requests.len(),
                self@.len() == self.requests@.len(),
                forall|j: int| 0 <= j < self@.len() ==> #[trigger] self@[j] == self.requests@[j]@,
                forall|j: int| 0 <= j < self@.len() ==> 0 <= #[trigger] self@[j].height,
                out@ == enc_abci_requests(self@.take(i as int)),
            decreases self.requests@.len() - i,
        {
            proof {
                assert(self@[i as int] == self.requests@[i as int]@);
                assert(0 <= self@[i as int].height);
            }
            let item = self.requests[i].encode_to_vec();
            write_tagged_bytes(&mut out, 0x0a, item.as_slice());
            proof {
                lemma_enc_abci_requests_push(self@.take(i as int), self@[i as int]);
                assert(self@.take(i + 1) =~= self@.take(i as int).push(self@[i as int]));
            }
            i = i + 1;
        }
        proof {
            assert(self@.take(self@.len() as int) =~= self@);
        }
        out
    }
}

impl AbciQueryResponse {
    /// Serializes this response in the wire format.
    pub fn encode_to_vec(&self) -> (out: Vec<u8>)
        requires
            0 <= self.index,
            0 <= self.height,
        ensures
            out@ == enc_abci_response(self@),
    {
        let mut out: Vec<u8> = Vec::new();
        write_tagged_varint(&mut out, 0x08, self.code as u64);
        write_tagged_varint(&mut out, 0x10, self.index as u64);
        write_tagged_bytes(&mut out, 0x1a, self.key.as_slice());
        write_tagged_bytes(&mut out, 0x22, self.value.as_slice());
        write_tagged_varint(&mut out, 0x28, self.height as u64);
        proof {
            assert(out@ =~= enc_abci_response(self@));
        }
        out
    }

    /// Parses one response from a whole buffer.
    #[verifier::rlimit(40)]
    pub fn decode(bytes: &[u8]) -> (r: Option<AbciQueryResponse>)
        ensures
            r matches Some(m) ==> parse_abci_response(bytes@) == Some(m@),
            r is None ==> parse_abci_response(bytes@) is None,
    {
        let blen: usize = bytes.len();
        proof {
            assert(bytes@.skip(0) =~= bytes@);
        }
        let (code, n1) = match read_tagged_varint(bytes, 0, 0x08) {
            None => {
                return None;
            },
            Some(p) => p,
        };
        let (index, n2) = match read_tagged_varint(bytes, n1, 0x10) {
            None => {
                return None;
            },
            Some(p) => p,
        };
        let (key, n3) = match read_tagged_bytes(bytes, n1 + n2, 0x1a) {
            None => {
                return None;
            },
            Some(p) => p,
        };
        let (value, n4) = match read_tagged_bytes(bytes, n1 + n2 + n3, 0x22) {
            None => {
                return None;
            },
            Some(p) => p,
        };
        let (height, n5) = match read_tagged_varint(bytes, n1 + n2 + n3 + n4, 0x28) {
            None => {
                return None;
            },
            Some(p) => p,
        };
        if n1 + n2 + n3 + n4 + n5 == blen && code < 0x1_0000_0000 && index
            < 0x8000_0000_0000_0000 && height < 0x8000_0000_0000_0000 {
            Some(
                AbciQueryResponse {
                    code: code as u32,
                    index: index as i64,
                    key,
                    value,
                    height: height as i64,
                },
            )
        } else {
            None
        }
    }
}

/// What a batch parse yields once `acc` has already been read and `pos`
/// bytes consumed.
pub open spec fn parse_abci_responses_from(
    bytes: Seq<u8>,
    pos: int,
    acc: Seq<AbciResponseV>,
) -> Option<Seq<AbciResponseV>> {
    match parse_abci_responses(bytes.skip(pos)) {
        None => None,
        Some(rest) => Some(acc + rest),
    }
}

impl CosmosResponse {
    /// Serializes this batch in the wire format.
    pub fn encode_to_vec(&self) -> (out: Vec<u8>)
        requires
            forall|i: int|
                0 <= i < self@.len() ==> 0 <= #[trigger] self@[i].index && 0 <= self@[i].height,
        ensures
            out@ == enc_abci_responses(self@),
    {
        let mut out: Vec<u8> = Vec::new();
        let mut i: usize = 0;
        proof {
            assert(self@.take(0) =~= Seq::<AbciResponseV>::empty());
        }
        while i < self.responses.len()
            invariant
                i <= self.responses.len(),
                self@.len() == self.responses@.len(),
                forall|j: int| 0 <= j < self@.len() ==> #[trigger] self@[j] == self.responses@[j]@,
                forall|j: int|
                    0 <= j < self@.len() ==> 0 <= #[trigger] self@[j].index && 0 <= self@[j].height,
                out@ == enc_abci_responses(self@.take(i as int)),
            decreases self.responses@.len() - i,
        {
            proof {
                assert(self@[i as int] == self.responses@[i as int]@);
                assert(0 <= self@[i as int].index);
                assert(0 <= self@[i as int].height);
            }
            let item = self.responses[i].encode_to_vec();
            write_tagged_bytes(&mut out, 0x0a, item.as_slice());
            proof {
                lemma_enc_abci_responses_push(self@.take(i as int), self@[i as int]);
                assert(self@.take(i + 1) =~= self@.take(i as int).push(self@[i as int]));
            }
            i = i + 1;
        }
        proof {
            assert(self@.take(self@.len() as int) =~= self@);
        }
        out
    }

    /// Parses a batch from a whole buffer.
    pub fn decode(bytes: &[u8]) -> (r: Option<CosmosResponse>)
        ensures
            r matches Some(m) ==> parse_abci_responses(bytes@) == Some(m@),
            r is None ==> parse_abci_responses(bytes@) is None,
    {
        let blen: usize = bytes.len();
        let mut pos: usize = 0;
        let mut items: Vec<AbciQueryResponse> = Vec::new();
        proof {
            assert(bytes@.skip(0) =~= bytes@);
            assert(items@.map_values(|q: AbciQueryResponse| q@) =~= Seq::<
                AbciResponseV,
            >::empty());
        }
        loop
            invariant
                pos <= blen,
                blen == bytes@.len(),
                parse_abci_responses(bytes@) == parse_abci_responses_from(
                    bytes@,
                    pos as int,
                    items@.map_values(|q: AbciQueryResponse| q@),
                ),
            ensures
                pos == blen,
                parse_abci_responses(bytes@) == Some(
                    items@.map_values(|q: AbciQueryResponse| q@),
                ),
            decreases blen - pos,
        {
            if pos == blen {
                proof {
                    assert(bytes@.skip(pos as int) =~= Seq::<u8>::empty());
                    assert(items@.map_values(|q: AbciQueryResponse| q@) + Seq::<
                        AbciResponseV,
                    >::empty() =~= items@.map_values(|q: AbciQueryResponse| q@));
                }
                break;
            }
            let (payload, n) = match read_tagged_bytes(bytes, pos, 0x0a) {
                None => {
                    return None;
                },
                Some(p) => p,
            };
            let resp = match AbciQueryResponse::decode(payload.as_slice()) {
                None => {
                    return None;
                },
                Some(m) => m,
            };
            proof {
                let old_views = items@.map_values(|q: AbciQueryResponse| q@);
                assert(bytes@.skip(pos as int).skip(n as int) =~= bytes@.skip(pos + n));
                assert(items@.push(resp).map_values(|q: AbciQueryResponse| q@) =~= old_views.push(
                    resp@,
                ));
                match parse_abci_responses(bytes@.skip(pos + n)) {
                    None => {},
                    Some(rest) => {
                        assert(old_views + (seq![resp@] + rest) =~= old_views.push(resp@) + rest);
                    },
                }
            }
            items.push(resp);
            pos = pos + n;
        }
        Some(CosmosResponse { responses: items })
    }
}

} // verus!
