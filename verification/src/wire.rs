//! Primitives of the wire format used for outbound queries and inbound
//! acknowledgments: base-128 varints and tagged, length-prefixed fields.
//!
//! A message is a fixed-order concatenation of fields. Every field starts
//! with a one-byte tag; a varint field continues with the base-128 encoding
//! of its value, and a length-prefixed field continues with a varint byte
//! count followed by that many payload bytes. Encoders always emit every
//! field, so each message has exactly one encoding, and the parse functions
//! here are proved to invert the encoders.

use vstd::prelude::*;
use vstd::utf8::{decode_utf8, encode_utf8, valid_utf8};

verus! {

/// The base-128 encoding of `v`, least significant group first; every byte
/// but the last has its high bit set.
pub open spec fn varint_enc(v: u64) -> Seq<u8>
    decreases v,
{
    if v < 128 {
        seq![v as u8]
    } else {
        seq![(v % 128 + 128) as u8] + varint_enc(v / 128)
    }
}

/// Parses a varint from the front of `s`; returns the value and the number
/// of bytes consumed.
pub open spec fn varint_parse(s: Seq<u8>) -> Option<(u64, int)>
    decreases s.len(),
{
    if s.len() == 0 {
        None
    } else if s[0] < 128 {
        Some((s[0] as u64, 1))
    } else {
        match varint_parse(s.skip(1)) {
            None => None,
            Some((v, n)) => {
                if v * 128 + (s[0] - 128) < 0x1_0000_0000_0000_0000 {
                    Some(((v * 128 + (s[0] - 128)) as u64, n + 1))
                } else {
                    None
                }
            },
        }
    }
}

pub proof fn lemma_varint_enc_len(v: u64)
    ensures
        1 <= varint_enc(v).len(),
    decreases v,
{
    if v >= 128 {
        lemma_varint_enc_len(v / 128);
    }
}

proof fn lemma_varint_enc_len_pow(v: u64, k: nat)
    requires
        1 <= k,
        (v as int) < vstd::arithmetic::power::pow(128, k),
    ensures
        varint_enc(v).len() <= k,
    decreases v,
{
    broadcast use vstd::arithmetic::power::lemma_pow_positive;

    if v >= 128 {
        let p = vstd::arithmetic::power::pow(128, (k - 1) as nat);
        assert(vstd::arithmetic::power::pow(128, k) == 128 * p) by {
            reveal(vstd::arithmetic::power::pow);
        }
        if k == 1 {
            vstd::arithmetic::power::lemma_pow1(128);
            assert(false);
        }
        assert((v as int) / 128 < p) by (nonlinear_arith)
            requires
                (v as int) < 128 * p,
                p >= 1,
        ;
        lemma_varint_enc_len_pow(v / 128, (k - 1) as nat);
    }
}

/// A varint takes at most ten bytes.
pub proof fn lemma_varint_enc_len_max(v: u64)
    ensures
        varint_enc(v).len() <= 10,
{
    assert(vstd::arithmetic::power::pow(128, 10) == 0x40_0000_0000_0000_0000) by {
        reveal_with_fuel(vstd::arithmetic::power::pow, 11);
    }
    lemma_varint_enc_len_pow(v, 10);
}

/// Parsing inverts encoding, whatever follows the encoded bytes.
pub proof fn lemma_varint_roundtrip(v: u64, rest: Seq<u8>)
    ensures
        varint_parse(varint_enc(v) + rest) == Some((v, varint_enc(v).len() as int)),
    decreases v,
{
    let s = varint_enc(v) + rest;
    if v < 128 {
        assert(s[0] == v as u8);
    } else {
        let b0 = (v % 128 + 128) as u8;
        assert(s[0] == b0);
        assert(s.skip(1) =~= varint_enc(v / 128) + rest);
        lemma_varint_roundtrip(v / 128, rest);
        assert((v / 128) * 128 + (b0 - 128) == v);
    }
}

/// A parsed varint consumes at least one byte and at most the input.
pub proof fn lemma_varint_parse_len(s: Seq<u8>)
    ensures
        varint_parse(s) matches Some((v, n)) ==> 1 <= n <= s.len(),
    decreases s.len(),
{
    if s.len() > 0 && s[0] >= 128 {
        lemma_varint_parse_len(s.skip(1));
    }
}

/// The encoding of a varint field: tag byte, then the value.
pub open spec fn enc_tagged_varint(tag: u8, v: u64) -> Seq<u8> {
    seq![tag] + varint_enc(v)
}

/// Parses a varint field with the given tag from the front of `s`.
pub open spec fn parse_tagged_varint(s: Seq<u8>, tag: u8) -> Option<(u64, int)> {
    if s.len() > 0 && s[0] == tag {
        match varint_parse(s.skip(1)) {
            None => None,
            Some((v, n)) => Some((v, n + 1)),
        }
    } else {
        None
    }
}

/// The encoding of a length-prefixed field: tag byte, byte count, payload.
pub open spec fn enc_tagged_bytes(tag: u8, b: Seq<u8>) -> Seq<u8> {
    seq![tag] + varint_enc(b.len() as u64) + b
}

/// Parses a length-prefixed field with the given tag from the front of `s`;
/// returns the payload and the number of bytes consumed.
pub open spec fn parse_tagged_bytes(s: Seq<u8>, tag: u8) -> Option<(Seq<u8>, int)> {
    if s.len() > 0 && s[0] == tag {
        match varint_parse(s.skip(1)) {
            None => None,
            Some((l, n)) => {
                if 1 + n + l <= s.len() {
                    Some((s.subrange(1 + n, 1 + n + l), 1 + n + l))
                } else {
                    None
                }
            },
        }
    } else {
        None
    }
}

/// The encoding of a string field: its UTF-8 bytes, length-prefixed.
pub open spec fn enc_tagged_str(tag: u8, s: Seq<char>) -> Seq<u8> {
    enc_tagged_bytes(tag, encode_utf8(s))
}

/// Parses a string field with the given tag: a length-prefixed field whose
/// payload must be valid UTF-8.
pub open spec fn parse_tagged_str(s: Seq<u8>, tag: u8) -> Option<(Seq<char>, int)> {
    match parse_tagged_bytes(s, tag) {
        None => None,
        Some((b, n)) => {
            if valid_utf8(b) {
                Some((decode_utf8(b), n))
            } else {
                None
            }
        },
    }
}

pub proof fn lemma_tagged_varint_roundtrip(tag: u8, v: u64, rest: Seq<u8>)
    ensures
        parse_tagged_varint(enc_tagged_varint(tag, v) + rest, tag) == Some(
            (v, enc_tagged_varint(tag, v).len() as int),
        ),
        enc_tagged_varint(tag, v).len() >= 2,
{
    let s = enc_tagged_varint(tag, v) + rest;
    assert(s[0] == tag);
    assert(s.skip(1) =~= varint_enc(v) + rest);
    lemma_varint_roundtrip(v, rest);
    lemma_varint_enc_len(v);
}

pub proof fn lemma_tagged_bytes_roundtrip(tag: u8, b: Seq<u8>, rest: Seq<u8>)
    requires
        b.len() < 0x1_0000_0000_0000_0000,
    ensures
        parse_tagged_bytes(enc_tagged_bytes(tag, b) + rest, tag) == Some(
            (b, enc_tagged_bytes(tag, b).len() as int),
        ),
        enc_tagged_bytes(tag, b).len() >= 2 + b.len(),
{
    let lv = b.len() as u64;
    let s = enc_tagged_bytes(tag, b) + rest;
    assert(s[0] == tag);
    assert(s.skip(1) =~= varint_enc(lv) + (b + rest));
    lemma_varint_roundtrip(lv, b + rest);
    lemma_varint_enc_len(lv);
    let n = varint_enc(lv).len() as int;
    assert(s.subrange(1 + n, 1 + n + lv as int) =~= b);
}

/// Each character contributes at most four bytes of UTF-8.
pub proof fn lemma_encode_utf8_len(s: Seq<char>)
    ensures
        encode_utf8(s).len() <= 4 * s.len(),
    decreases s.len(),
{
    if s.len() > 0 {
        lemma_encode_utf8_len(s.drop_first());
    }
}

pub proof fn lemma_tagged_str_roundtrip(tag: u8, s: Seq<char>, rest: Seq<u8>)
    requires
        4 * s.len() < 0x1_0000_0000_0000_0000,
    ensures
        parse_tagged_str(enc_tagged_str(tag, s) + rest, tag) == Some(
            (s, enc_tagged_str(tag, s).len() as int),
        ),
        enc_tagged_str(tag, s).len() >= 2,
{
    broadcast use vstd::utf8::encode_utf8_valid_utf8, vstd::utf8::encode_utf8_decode_utf8;

    lemma_encode_utf8_len(s);
    lemma_tagged_bytes_roundtrip(tag, encode_utf8(s), rest);
}

/// A parsed field consumes at least two bytes and at most the input.
pub proof fn lemma_parse_field_len(s: Seq<u8>, tag: u8)
    ensures
        parse_tagged_varint(s, tag) matches Some((v, n)) ==> 2 <= n <= s.len(),
        parse_tagged_bytes(s, tag) matches Some((b, n)) ==> 2 <= n <= s.len() && b.len() <= n - 2,
        parse_tagged_str(s, tag) matches Some((c, n)) ==> 2 <= n <= s.len(),
{
    if s.len() > 0 && s[0] == tag {
        lemma_varint_parse_len(s.skip(1));
    }
}

/// Appends the base-128 encoding of `v` to `out`.
pub fn write_varint(out: &mut Vec<u8>, v: u64)
    ensures
        final(out)@ == old(out)@ + varint_enc(v),
{
    let mut x: u64 = v;
    loop
        invariant_except_break
            old(out)@ + varint_enc(v) == out@ + varint_enc(x),
        ensures
            out@ == old(out)@ + varint_enc(v),
        decreases x,
    {
        if x < 128 {
            out.push(x as u8);
            proof {
                assert(varint_enc(x) =~= seq![x as u8]);
                assert(out@ =~= old(out)@ + varint_enc(v));
            }
            break;
        } else {
            let b = (x % 128 + 128) as u8;
            out.push(b);
            proof {
                assert(varint_enc(x) =~= seq![b] + varint_enc(x / 128));
                assert(out@ + varint_enc(x / 128) =~= old(out)@ + varint_enc(v));
            }
            x = x / 128;
        }
    }
}

/// Appends a varint field to `out`.
pub fn write_tagged_varint(out: &mut Vec<u8>, tag: u8, v: u64)
    ensures
        final(out)@ == old(out)@ + enc_tagged_varint(tag, v),
{
    out.push(tag);
    write_varint(out, v);
    proof {
        assert(out@ =~= old(out)@ + enc_tagged_varint(tag, v));
    }
}

/// Appends a length-prefixed field to `out`.
pub fn write_tagged_bytes(out: &mut Vec<u8>, tag: u8, b: &[u8])
    ensures
        final(out)@ == old(out)@ + enc_tagged_bytes(tag, b@),
{
    out.push(tag);
    write_varint(out, b.len() as u64);
    let mut i: usize = 0;
    while i < b.len()
        invariant
            i <= b@.len(),
            out@ == old(out)@ + seq![tag] + varint_enc(b@.len() as u64) + b@.subrange(0, i as int),
        decreases b@.len() - i,
    {
        out.push(b[i]);
        proof {
            assert(b@.subrange(0, i + 1) =~= b@.subrange(0, i as int) + seq![b@[i as int]]);
            assert(out@ =~= old(out)@ + seq![tag] + varint_enc(b@.len() as u64) + b@.subrange(
                0,
                i + 1,
            ));
        }
        i = i + 1;
    }
    proof {
        assert(b@.subrange(0, b@.len() as int) =~= b@);
        assert(out@ =~= old(out)@ + enc_tagged_bytes(tag, b@));
    }
}

/// Appends a string field to `out`.
pub fn write_tagged_str(out: &mut Vec<u8>, tag: u8, s: &str)
    ensures
        final(out)@ == old(out)@ + enc_tagged_str(tag, s@),
{
    let bytes = s.as_bytes_vec();
    write_tagged_bytes(out, tag, bytes.as_slice());
}

/// Reads a varint at `pos`; returns the value and the number of bytes
/// consumed.
pub fn read_varint(bytes: &[u8], pos: usize) -> (r: Option<(u64, usize)>)
    requires
        pos <= bytes@.len(),
    ensures
        match r {
            Some((v, n)) => varint_parse(bytes@.skip(pos as int)) == Some((v, n as int)) && 1 <= n
                && pos + n <= bytes@.len(),
            None => varint_parse(bytes@.skip(pos as int)) is None,
        },
    decreases bytes@.len() - pos,
{
    let s = Ghost(bytes@.skip(pos as int));
    if pos == bytes.len() {
        return None;
    }
    let b = bytes[pos];
    if b < 128 {
        Some((b as u64, 1))
    } else {
        proof {
            assert(s@.skip(1) =~= bytes@.skip(pos + 1));
        }
        match read_varint(bytes, pos + 1) {
            None => None,
            Some((v, n)) => {
                if v < 0x200_0000_0000_0000 {
                    Some((v * 128 + (b - 128) as u64, n + 1))
                } else {
                    proof {
                        assert(v * 128 + (b - 128) >= 0x1_0000_0000_0000_0000);
                    }
                    None
                }
            },
        }
    }
}

/// Reads a varint field with the given tag at `pos`; returns the value and
/// the number of bytes consumed.
pub fn read_tagged_varint(bytes: &[u8], pos: usize, tag: u8) -> (r: Option<(u64, usize)>)
    requires
        pos <= bytes@.len(),
    ensures
        match r {
            Some((v, n)) => parse_tagged_varint(bytes@.skip(pos as int), tag) == Some(
                (v, n as int),
            ) && 1 <= n && pos + n <= bytes@.len(),
            None => parse_tagged_varint(bytes@.skip(pos as int), tag) is None,
        },
{
    let s = Ghost(bytes@.skip(pos as int));
    if pos == bytes.len() || bytes[pos] != tag {
        return None;
    }
    proof {
        assert(s@.skip(1) =~= bytes@.skip(pos + 1));
    }
    match read_varint(bytes, pos + 1) {
        None => None,
        Some((v, n)) => Some((v, n + 1)),
    }
}

/// Reads a length-prefixed field with the given tag at `pos`; returns the
/// payload and the number of bytes consumed.
pub fn read_tagged_bytes(bytes: &[u8], pos: usize, tag: u8) -> (r: Option<(Vec<u8>, usize)>)
    requires
        pos <= bytes@.len(),
    ensures
        match r {
            Some((b, n)) => parse_tagged_bytes(bytes@.skip(pos as int), tag) == Some(
                (b@, n as int),
            ) && 1 <= n && pos + n <= bytes@.len(),
            None => parse_tagged_bytes(bytes@.skip(pos as int), tag) is None,
        },
{
    let s = Ghost(bytes@.skip(pos as int));
    if pos == bytes.len() || bytes[pos] != tag {
        return None;
    }
    proof {
        assert(s@.skip(1) =~= bytes@.skip(pos + 1));
    }
    match read_varint(bytes, pos + 1) {
        None => None,
        Some((l, n)) => {
            if l <= (bytes.len() - pos - 1 - n) as u64 {
                let start = pos + 1 + n;
                let end = start + l as usize;
                let payload = vstd::slice::slice_to_vec(
                    vstd::slice::slice_subrange(bytes, start, end),
                );
                proof {
                    assert(payload@ =~= s@.subrange(1 + n as int, 1 + n + l as int));
                }
                Some((payload, 1 + n + l as usize))
            } else {
                None
            }
        },
    }
}

/// Relies on `String::from_utf8`: returns the string whose UTF-8 encoding
/// is the given bytes, and fails exactly on bytes that are not valid UTF-8.
#[verifier::external_body]
pub(crate) fn string_from_utf8(bytes: Vec<u8>) -> (r: Option<String>)
    ensures
        r is Some <==> valid_utf8(bytes@),
        r matches Some(s) ==> s@ == decode_utf8(bytes@),
{
    String::from_utf8(bytes).ok()
}

/// Reads a string field with the given tag at `pos`; returns the string and
/// the number of bytes consumed.
pub fn read_tagged_str(bytes: &[u8], pos: usize, tag: u8) -> (r: Option<(String, usize)>)
    requires
        pos <= bytes@.len(),
    ensures
        match r {
            Some((c, n)) => parse_tagged_str(bytes@.skip(pos as int), tag) == Some(
                (c@, n as int),
            ) && 1 <= n && pos + n <= bytes@.len(),
            None => parse_tagged_str(bytes@.skip(pos as int), tag) is None,
        },
{
    match read_tagged_bytes(bytes, pos, tag) {
        None => None,
        Some((b, n)) => {
            match string_from_utf8(b) {
                None => None,
                Some(s) => Some((s, n)),
            }
        },
    }
}

} // verus!
