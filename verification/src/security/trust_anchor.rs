//! Trust anchor management.
//!
//! Trust anchors are Ed25519 public keys of organisations authorised to
//! publish content packages. They are embedded in the binary and stored in
//! `core.sqlite`.

use vstd::prelude::*;

use ed25519_dalek::{SignatureError, VerifyingKey};

verus! {

#[verifier::external_type_specification]
#[verifier::external_body]
pub struct ExVerifyingKey(VerifyingKey);

#[verifier::external_type_specification]
#[verifier::external_body]
pub struct ExSignatureError(SignatureError);

/// `true` iff `bytes` is the compressed encoding of a point on the Ed25519
/// curve, i.e. `ed25519_dalek::VerifyingKey::from_bytes` accepts it.
pub uninterp spec fn ed25519_key_decodes(bytes: Seq<u8>) -> bool;

/// Decodes a public key with `ed25519_dalek::VerifyingKey::from_bytes`.
/// Claimed: it succeeds exactly when the bytes decode to a curve point, which
/// depends on the 32 bytes alone.
#[verifier::external_body]
fn decode_verifying_key(bytes: &[u8]) -> (r: Result<VerifyingKey, SignatureError>)
    requires
        bytes@.len() == 32,
    ensures
        r is Ok <==> ed25519_key_decodes(bytes@),
{
    let arr: [u8; 32] = bytes.try_into().unwrap();
    VerifyingKey::from_bytes(&arr)
}

/// Builds the error `ed25519_dalek::SignatureError::from_source` for a key of
/// the wrong length. Nothing is claimed about the value.
#[verifier::external_body]
fn invalid_key_length_error() -> (e: SignatureError) {
    SignatureError::from_source("invalid key length")
}

/// A trust anchor: a named Ed25519 public key.
#[derive(Debug, Clone)]
pub struct TrustAnchor {
    pub signing_key_id: String,
    pub label: String,
    /// Ed25519 public key bytes (32 bytes).
    pub public_key_bytes: Vec<u8>,
    pub added_at: i64,
    pub status: TrustAnchorStatus,
}

/// Status of a trust anchor.
#[derive(Debug, Clone, Copy, PartialEq, Eq, Structural)]
pub enum TrustAnchorStatus {
    Trusted,
    Revoked,
}

impl TrustAnchor {
    /// Parse and validate the stored public key bytes.
    pub fn verifying_key(&self) -> (r: Result<VerifyingKey, SignatureError>)
        ensures
            r is Ok <==> (self.public_key_bytes@.len() == 32 && ed25519_key_decodes(
                self.public_key_bytes@,
            )),
    {
        if self.public_key_bytes.len() != 32 {
            return Err(invalid_key_length_error());
        }
        decode_verifying_key(self.public_key_bytes.as_slice())
    }
}

} // verus!
