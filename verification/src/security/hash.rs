//! SHA-256 hashing with lowercase hex rendering.

use vstd::prelude::*;

use sha2::{Digest, Sha256};

use crate::text::{hex_encode, hex_lower};

verus! {

/// The SHA-256 digest of `data` (FIPS 180-4), as computed by the `sha2` crate.
pub uninterp spec fn sha256_spec(data: Seq<u8>) -> Seq<u8>;

/// Computes the SHA-256 digest with `sha2::Sha256::digest`.
/// Claimed: the result is the digest of `data` (a function of `data` alone)
/// and is 32 bytes long, the output size of SHA-256.
#[verifier::external_body]
fn sha256_digest(data: &[u8]) -> (r: Vec<u8>)
    ensures
        r@ == sha256_spec(data@),
        r@.len() == 32,
{
    Sha256::digest(data).to_vec()
}

/// The lowercase hex rendering of the SHA-256 digest of `data`.
pub open spec fn sha256_hex_spec(data: Seq<u8>) -> Seq<char> {
    hex_encode(sha256_spec(data))
}

/// SHA-256 hash provider backed by the `sha2` crate.
pub struct Sha256Hasher;

impl Sha256Hasher {
    /// The SHA-256 digest of `data` as 64 lowercase hex characters.
    pub fn sha256_hex(&self, data: &[u8]) -> (r: String)
        ensures
            r@ == sha256_hex_spec(data@),
            r@.len() == 64,
    {
        let digest = sha256_digest(data);
        hex_lower(digest.as_slice())
    }
}

/// Compute a SHA-256 hash without constructing the struct.
pub fn sha256_hex(data: &[u8]) -> (r: String)
    ensures
        r@ == sha256_hex_spec(data@),
        r@.len() == 64,
{
    Sha256Hasher.sha256_hex(data)
}

} // verus!
