//! The TWAP query messages carried inside an interchain query: the domain
//! sub-request sent to the remote TWAP endpoint, and the response carrying
//! the price as a decimal string.
//!
//! Each message has a spec-level encoding (`enc_*`), a spec-level parse
//! (`parse_*`) proved to invert it, and executable encode/decode functions
//! whose contracts tie them to those spec functions.

use crate::wire::{
    enc_tagged_bytes, enc_tagged_str, enc_tagged_varint, lemma_tagged_bytes_roundtrip,
    lemma_tagged_str_roundtrip, lemma_tagged_varint_roundtrip, lemma_varint_enc_len_max,
    parse_tagged_bytes, parse_tagged_str, parse_tagged_varint, read_tagged_bytes, read_tagged_str,
    read_tagged_varint, write_tagged_bytes, write_tagged_str, write_tagged_varint,
};
use vstd::prelude::*;

verus! {

/// A point in time: seconds since the Unix epoch plus a nanosecond part.
/// Both parts are non-negative in every valid value.
#[derive(Clone, Copy, Debug, PartialEq, Eq, Structural)]
pub struct Timestamp {
    pub seconds: i64,
    pub nanos: i32,
}

/// The domain sub-request: ask for the time-weighted average price of
/// `base_asset` in `quote_asset` on pool `pool_id`, over the window that
/// starts at `start_time` (or a default window when absent) and ends now.
#[derive(Clone, Debug, PartialEq, Eq)]
pub struct ArithmeticTwapToNowRequest {
    pub pool_id: u64,
    pub base_asset: String,
    pub quote_asset: String,
    pub start_time: Option<Timestamp>,
}

/// The domain response: the price as a decimal string.
#[derive(Clone, Debug, PartialEq, Eq)]
pub struct ArithmeticTwapToNowResponse {
    pub arithmetic_twap: String,
}

/// The mathematical value of an [`ArithmeticTwapToNowRequest`].
pub struct TwapRequestV {
    pub pool_id: u64,
    pub base_asset: Seq<char>,
    pub quote_asset: Seq<char>,
    pub start_time: Option<Timestamp>,
}

impl View for ArithmeticTwapToNowRequest {
    type V = TwapRequestV;

    open spec fn view(&self) -> TwapRequestV {
        TwapRequestV {
            pool_id: self.pool_id,
            base_asset: self.base_asset@,
            quote_asset: self.quote_asset@,
            start_time: self.start_time,
        }
    }
}

impl View for ArithmeticTwapToNowResponse {
    type V = Seq<char>;

    open spec fn view(&self) -> Seq<char> {
        self.arithmetic_twap@
    }
}

pub open spec fn wf_timestamp(t: Timestamp) -> bool {
    0 <= t.seconds && 0 <= t.nanos
}

/// Machine-size validity of a request: the timestamp parts are
/// non-negative and the asset names are small enough to length-prefix.
pub open spec fn wf_twap_request(r: TwapRequestV) -> bool {
    &&& r.start_time matches Some(t) ==> wf_timestamp(t)
    &&& 4 * r.base_asset.len() < 0x1_0000_0000_0000_0000
    &&& 4 * r.quote_asset.len() < 0x1_0000_0000_0000_0000
}

pub open spec fn enc_timestamp(t: Timestamp) -> Seq<u8> {
    enc_tagged_varint(0x08, t.seconds as u64) + enc_tagged_varint(0x10, t.nanos as u64)
}

pub open spec fn parse_timestamp(s: Seq<u8>) -> Option<Timestamp> {
    match parse_tagged_varint(s, 0x08) {
        None => None,
        Some((sec, n1)) => match parse_tagged_varint(s.skip(n1), 0x10) {
            None => None,
            Some((nan, n2)) => {
                if n1 + n2 == s.len() && sec < 0x8000_0000_0000_0000 && nan < 0x8000_0000 {
                    Some(Timestamp { seconds: sec as i64, nanos: nan as i32 })
                } else {
                    None
                }
            },
        },
    }
}

/// An encoded timestamp is always short.
pub proof fn lemma_enc_timestamp_len(t: Timestamp)
    ensures
        enc_timestamp(t).len() <= 22,
{
    lemma_varint_enc_len_max(t.seconds as u64);
    lemma_varint_enc_len_max(t.nanos as u64);
}

pub proof fn lemma_timestamp_roundtrip(t: Timestamp)
    requires
        wf_timestamp(t),
    ensures
        parse_timestamp(enc_timestamp(t)) == Some(t),
{
    let e1 = enc_tagged_varint(0x08, t.seconds as u64);
    let e2 = enc_tagged_varint(0x10, t.nanos as u64);
    lemma_tagged_varint_roundtrip(0x08, t.seconds as u64, e2);
    assert((e1 + e2).skip(e1.len() as int) =~= e2);
    lemma_tagged_varint_roundtrip(0x10, t.nanos as u64, Seq::<u8>::empty());
    assert(e2 + Seq::<u8>::empty() =~= e2);
}

pub open spec fn enc_twap_request(r: TwapRequestV) -> Seq<u8> {
    enc_tagged_varint(0x08, r.pool_id) + enc_tagged_str(0x12, r.base_asset) + enc_tagged_str(
        0x1a,
        r.quote_asset,
    ) + (match r.start_time {
        None => Seq::<u8>::empty(),
        Some(t) => enc_tagged_bytes(0x22, enc_timestamp(t)),
    })
}

pub open spec fn parse_twap_request(s: Seq<u8>) -> Option<TwapRequestV> {
    match parse_tagged_varint(s, 0x08) {
        None => None,
        Some((pool, n1)) => match parse_tagged_str(s.skip(n1), 0x12) {
            None => None,
            Some((base, n2)) => match parse_tagged_str(s.skip(n1 + n2), 0x1a) {
                None => None,
                Some((quote, n3)) => {
                    let rest = s.skip(n1 + n2 + n3);
                    if rest.len() == 0 {
                        Some(
                            TwapRequestV {
                                pool_id: pool,
                                base_asset: base,
                                quote_asset: quote,
                                start_time: None,
                            },
                        )
                    } else {
                        match parse_tagged_bytes(rest, 0x22) {
                            None => None,
                            Some((tsb, n4)) => {
                                if n4 == rest.len() {
                                    match parse_timestamp(tsb) {
                                        None => None,
                                        Some(t) => Some(
                                            TwapRequestV {
                                                pool_id: pool,
                                                base_asset: base,
                                                quote_asset: quote,
                                                start_time: Some(t),
                                            },
                                        ),
                                    }
                                } else {
                                    None
                                }
                            },
                        }
                    }
                },
            },
        },
    }
}

/// Decoding inverts encoding for every valid domain sub-request: the pool
/// id, both asset names, and the optional start time all come back
/// unchanged.
pub proof fn lemma_twap_request_roundtrip(r: TwapRequestV)
    requires
        wf_twap_request(r),
    ensures
        parse_twap_request(enc_twap_request(r)) == Some(r),
{
    let e1 = enc_tagged_varint(0x08, r.pool_id);
    let e2 = enc_tagged_str(0x12, r.base_asset);
    let e3 = enc_tagged_str(0x1a, r.quote_asset);
    let e4 = match r.start_time {
        None => Seq::<u8>::empty(),
        Some(t) => enc_tagged_bytes(0x22, enc_timestamp(t)),
    };
    let s = enc_twap_request(r);
    assert(s =~= e1 + (e2 + e3 + e4));
    lemma_tagged_varint_roundtrip(0x08, r.pool_id, e2 + e3 + e4);
    let n1 = e1.len() as int;
    assert(s.skip(n1) =~= e2 + (e3 + e4));
    lemma_tagged_str_roundtrip(0x12, r.base_asset, e3 + e4);
    let n2 = e2.len() as int;
    assert(s.skip(n1 + n2) =~= e3 + e4);
    lemma_tagged_str_roundtrip(0x1a, r.quote_asset, e4);
    let n3 = e3.len() as int;
    assert(s.skip(n1 + n2 + n3) =~= e4);
    match r.start_time {
        None => {},
        Some(t) => {
            lemma_timestamp_roundtrip(t);
            lemma_enc_timestamp_len(t);
            lemma_tagged_bytes_roundtrip(0x22, enc_timestamp(t), Seq::<u8>::empty());
            assert(enc_tagged_bytes(0x22, enc_timestamp(t)) + Seq::<u8>::empty() =~= e4);
        },
    }
}

pub open spec fn enc_twap_response(twap: Seq<char>) -> Seq<u8> {
    enc_tagged_str(0x0a, twap)
}

pub open spec fn parse_twap_response(s: Seq<u8>) -> Option<Seq<char>> {
    match parse_tagged_str(s, 0x0a) {
        None => None,
        Some((twap, n)) => {
            if n == s.len() {
                Some(twap)
            } else {
                None
            }
        },
    }
}

/// An encoded response is short: a tag, a length, and the UTF-8 bytes.
pub proof fn lemma_enc_twap_response_len(twap: Seq<char>)
    requires
        4 * twap.len() < 0x1_0000_0000_0000_0000,
    ensures
        2 <= enc_twap_response(twap).len() <= 11 + 4 * twap.len(),
{
    crate::wire::lemma_encode_utf8_len(twap);
    let ul = vstd::utf8::encode_utf8(twap).len() as u64;
    crate::wire::lemma_varint_enc_len_max(ul);
    crate::wire::lemma_varint_enc_len(ul);
}

pub proof fn lemma_twap_response_roundtrip(twap: Seq<char>)
    requires
        4 * twap.len() < 0x1_0000_0000_0000_0000,
    ensures
        parse_twap_response(enc_twap_response(twap)) == Some(twap),
{
    lemma_tagged_str_roundtrip(0x0a, twap, Seq::<u8>::empty());
    assert(enc_tagged_str(0x0a, twap) + Seq::<u8>::empty() =~= enc_twap_response(twap));
}

impl Timestamp {
    /// Serializes this timestamp in the wire format.
    pub fn encode_to_vec(&self) -> (out: Vec<u8>)
        requires
            wf_timestamp(*self),
        ensures
            out@ == enc_timestamp(*self),
    {
        let mut out: Vec<u8> = Vec::new();
        write_tagged_varint(&mut out, 0x08, self.seconds as u64);
        write_tagged_varint(&mut out, 0x10, self.nanos as u64);
        proof {
            assert(out@ =~= enc_timestamp(*self));
        }
        out
    }

    /// Parses a timestamp from a whole buffer.
    pub fn decode(bytes: &[u8]) -> (r: Option<Timestamp>)
        ensures
            r == parse_timestamp(bytes@),
    {
        let blen: usize = bytes.len();
        proof {
            assert(bytes@.skip(0) =~= bytes@);
        }
        let (sec, n1) = match read_tagged_varint(bytes, 0, 0x08) {
            None => {
                return None;
            },
            Some(p) => p,
        };
        let (nan, n2) = match read_tagged_varint(bytes, n1, 0x10) {
            None => {
                return None;
            },
            Some(p) => p,
        };
        if n1 + n2 == blen && sec < 0x8000_0000_0000_0000 && nan < 0x8000_0000 {
            Some(Timestamp { seconds: sec as i64, nanos: nan as i32 })
        } else {
            None
        }
    }
}

impl ArithmeticTwapToNowRequest {
    /// Serializes this sub-request in the wire format.
    pub fn encode_to_vec(&self) -> (out: Vec<u8>)
        requires
            self@.start_time matches Some(t) ==> wf_timestamp(t),
        ensures
            out@ == enc_twap_request(self@),
    {
        let mut out: Vec<u8> = Vec::new();
        write_tagged_varint(&mut out, 0x08, self.pool_id);
        write_tagged_str(&mut out, 0x12, self.base_asset.as_str());
        write_tagged_str(&mut out, 0x1a, self.quote_asset.as_str());
        match &self.start_time {
            None => {},
            Some(t) => {
                let tsb = t.encode_to_vec();
                write_tagged_bytes(&mut out, 0x22, tsb.as_slice());
            },
        }
        proof {
            assert(out@ =~= enc_twap_request(self@));
        }
        out
    }

    /// Parses a sub-request from a whole buffer.
    pub fn decode(bytes: &[u8]) -> (r: Option<ArithmeticTwapToNowRequest>)
        ensures
            r matches Some(m) ==> parse_twap_request(bytes@) == Some(m@),
            r is None ==> parse_twap_request(bytes@) is None,
    {
        let blen: usize = bytes.len();
        proof {
            assert(bytes@.skip(0) =~= bytes@);
        }
        let (pool, n1) = match read_tagged_varint(bytes, 0, 0x08) {
            None => {
                return None;
            },
            Some(p) => p,
        };
        let (base, n2) = match read_tagged_str(bytes, n1, 0x12) {
            None => {
                return None;
            },
            Some(p) => p,
        };
        let (quote, n3) = match read_tagged_str(bytes, n1 + n2, 0x1a) {
            None => {
                return None;
            },
            Some(p) => p,
        };
        let pos = n1 + n2 + n3;
        if pos == blen {
            return Some(
                ArithmeticTwapToNowRequest {
                    pool_id: pool,
                    base_asset: base,
                    quote_asset: quote,
                    start_time: None,
                },
            );
        }
        let (tsb, n4) = match read_tagged_bytes(bytes, pos, 0x22) {
            None => {
                return None;
            },
            Some(p) => p,
        };
        if pos + n4 != blen {
            return None;
        }
        match Timestamp::decode(tsb.as_slice()) {
            None => None,
            Some(t) => Some(
                ArithmeticTwapToNowRequest {
                    pool_id: pool,
                    base_asset: base,
                    quote_asset: quote,
                    start_time: Some(t),
                },
            ),
        }
    }
}

impl ArithmeticTwapToNowResponse {
    /// Serializes this response in the wire format.
    pub fn encode_to_vec(&self) -> (out: Vec<u8>)
        ensures
            out@ == enc_twap_response(self@),
    {
        let mut out: Vec<u8> = Vec::new();
        write_tagged_str(&mut out, 0x0a, self.arithmetic_twap.as_str());
        proof {
            assert(out@ =~= enc_twap_response(self@));
        }
        out
    }

    /// Parses a response from a whole buffer.
    pub fn decode(bytes: &[u8]) -> (r: Option<ArithmeticTwapToNowResponse>)
        ensures
            r matches Some(m) ==> parse_twap_response(bytes@) == Some(m@),
            r is None ==> parse_twap_response(bytes@) is None,
    {
        let blen: usize = bytes.len();
        proof {
            assert(bytes@.skip(0) =~= bytes@);
        }
        match read_tagged_str(bytes, 0, 0x0a) {
            None => None,
            Some((twap, n)) => {
                if n == blen {
                    Some(ArithmeticTwapToNowResponse { arithmetic_twap: twap })
                } else {
                    None
                }
            },
        }
    }
}

} // verus!
