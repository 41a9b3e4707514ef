//! The outer acknowledgment envelope: either a successful result carrying
//! encoded response bytes, or an error carrying a message.

use crate::wire::{
    enc_tagged_bytes, enc_tagged_str, lemma_tagged_bytes_roundtrip, lemma_tagged_str_roundtrip,
    parse_tagged_bytes, parse_tagged_str, read_tagged_bytes, read_tagged_str, write_tagged_bytes,
    write_tagged_str,
};
use vstd::prelude::*;

verus! {

/// The generic acknowledgment format of the transport: a success carries
/// the result bytes, a failure carries an error message.
#[derive(Clone, Debug, PartialEq, Eq)]
pub enum AckWrapper {
    Result(Vec<u8>),
    Error(String),
}

/// The mathematical value of an [`AckWrapper`].
pub enum AckWrapperV {
    Result(Seq<u8>),
    Error(Seq<char>),
}

impl View for AckWrapper {
    type V = AckWrapperV;

    open spec fn view(&self) -> AckWrapperV {
        match self {
            AckWrapper::Result(b) => AckWrapperV::Result(b@),
            AckWrapper::Error(e) => AckWrapperV::Error(e@),
        }
    }
}

/// The tag of the result arm of the envelope.
pub const ACK_RESULT_TAG: u8 = 0xaa;

/// The tag of the error arm of the envelope.
pub const ACK_ERROR_TAG: u8 = 0xb2;

pub open spec fn wf_ack_wrapper(a: AckWrapperV) -> bool {
    match a {
        AckWrapperV::Result(b) => b.len() < 0x1_0000_0000_0000_0000,
        AckWrapperV::Error(e) => 4 * e.len() < 0x1_0000_0000_0000_0000,
    }
}

pub open spec fn enc_ack_wrapper(a: AckWrapperV) -> Seq<u8> {
    match a {
        AckWrapperV::Result(b) => enc_tagged_bytes(ACK_RESULT_TAG, b),
        AckWrapperV::Error(e) => enc_tagged_str(ACK_ERROR_TAG, e),
    }
}

/// Parses an acknowledgment envelope: the first byte decides the arm, and
/// the chosen field must span the whole buffer.
pub open spec fn parse_ack_wrapper(s: Seq<u8>) -> Option<AckWrapperV> {
    if s.len() > 0 && s[0] == ACK_RESULT_TAG {
        match parse_tagged_bytes(s, ACK_RESULT_TAG) {
            None => None,
            Some((b, n)) => {
                if n == s.len() {
                    Some(AckWrapperV::Result(b))
                } else {
                    None
                }
            },
        }
    } else if s.len() > 0 && s[0] == ACK_ERROR_TAG {
        match parse_tagged_str(s, ACK_ERROR_TAG) {
            None => None,
            Some((e, n)) => {
                if n == s.len() {
                    Some(AckWrapperV::Error(e))
                } else {
                    None
                }
            },
        }
    } else {
        None
    }
}

pub proof fn lemma_ack_wrapper_roundtrip(a: AckWrapperV)
    requires
        wf_ack_wrapper(a),
    ensures
        parse_ack_wrapper(enc_ack_wrapper(a)) == Some(a),
{
    match a {
        AckWrapperV::Result(b) => {
            lemma_tagged_bytes_roundtrip(ACK_RESULT_TAG, b, Seq::<u8>::empty());
            assert(enc_tagged_bytes(ACK_RESULT_TAG, b) + Seq::<u8>::empty() =~= enc_ack_wrapper(
                a,
            ));
            assert(enc_ack_wrapper(a)[0] == ACK_RESULT_TAG);
        },
        AckWrapperV::Error(e) => {
            lemma_tagged_str_roundtrip(ACK_ERROR_TAG, e, Seq::<u8>::empty());
            assert(enc_tagged_str(ACK_ERROR_TAG, e) + Seq::<u8>::empty() =~= enc_ack_wrapper(a));
            assert(enc_ack_wrapper(a)[0] == ACK_ERROR_TAG);
        },
    }
}

/// Builds a serialized success acknowledgment around already-encoded
/// result bytes.
pub fn ack_success(data: &[u8]) -> (out: Vec<u8>)
    ensures
        out@ == enc_ack_wrapper(AckWrapperV::Result(data@)),
{
    let mut out: Vec<u8> = Vec::new();
    write_tagged_bytes(&mut out, ACK_RESULT_TAG, data);
    proof {
        assert(out@ =~= enc_ack_wrapper(AckWrapperV::Result(data@)));
    }
    out
}

/// Builds a serialized error acknowledgment around an error message.
pub fn ack_fail(err: &str) -> (out: Vec<u8>)
    ensures
        out@ == enc_ack_wrapper(AckWrapperV::Error(err@)),
{
    let mut out: Vec<u8> = Vec::new();
    write_tagged_str(&mut out, ACK_ERROR_TAG, err);
    proof {
        assert(out@ =~= enc_ack_wrapper(AckWrapperV::Error(err@)));
    }
    out
}

impl AckWrapper {
    /// Serializes this acknowledgment in the wire format.
    pub fn encode_to_vec(&self) -> (out: Vec<u8>)
        ensures
            out@ == enc_ack_wrapper(self@),
    {
        match self {
            AckWrapper::Result(b) => ack_success(b.as_slice()),
            AckWrapper::Error(e) => ack_fail(e.as_str()),
        }
    }

    /// Parses an acknowledgment from a whole buffer.
    pub fn decode(bytes: &[u8]) -> (r: Option<AckWrapper>)
        ensures
            r matches Some(m) ==> parse_ack_wrapper(bytes@) == Some(m@),
            r is None ==> parse_ack_wrapper(bytes@) is None,
    {
        let blen: usize = bytes.len();
        proof {
            assert(bytes@.skip(0) =~= bytes@);
        }
        if blen == 0 {
            return None;
        }
        if bytes[0] == ACK_RESULT_TAG {
            match read_tagged_bytes(bytes, 0, ACK_RESULT_TAG) {
                None => None,
                Some((b, n)) => {
                    if n == blen {
                        Some(AckWrapper::Result(b))
                    } else {
                        None
                    }
                },
            }
        } else if bytes[0] == ACK_ERROR_TAG {
            match read_tagged_str(bytes, 0, ACK_ERROR_TAG) {
                None => None,
                Some((e, n)) => {
                    if n == blen {
                        Some(AckWrapper::Error(e))
                    } else {
                        None
                    }
                },
            }
        } else {
            None
        }
    }
}

} // verus!
