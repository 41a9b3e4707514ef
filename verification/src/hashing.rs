//! The content hash that identifies one logical in-flight query: two
//! payloads coalesce exactly when their hashes agree, and an acknowledgment
//! or timeout is correlated to its request by recomputing the hash of the
//! original packet bytes.

use sha2::{Digest, Sha256};
use vstd::prelude::*;

verus! {

/// The SHA-256 digest of a byte sequence. Its value is fixed by the hash
/// function; nothing here states what it is, only that it is a function of
/// the bytes alone and is 32 bytes long.
pub uninterp spec fn sha256_of(b: Seq<u8>) -> Seq<u8>;

/// Relies on `sha2::Sha256::digest`: the digest depends on the input bytes
/// alone, and is always 32 bytes.
#[verifier::external_body]
pub fn data_hash(b: &[u8]) -> (r: Vec<u8>)
    ensures
        r@ == sha256_of(b@),
        r@.len() == 32,
{
    Sha256::digest(b).to_vec()
}

} // verus!
