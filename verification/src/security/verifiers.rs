//! Signature verifier and unlock-slot verifier.

use vstd::prelude::*;

use ed25519_dalek::{Signature, Verifier, VerifyingKey};
use zeroize::Zeroize;

use crate::domain::CoreError;
use crate::security::trust_anchor::{ed25519_key_decodes, TrustAnchor, TrustAnchorStatus};

verus! {

/// `true` iff `signature` is a valid Ed25519 signature of `message` under the
/// public key encoded by `public_key` (RFC 8032, as checked by `ed25519-dalek`).
pub uninterp spec fn ed25519_signature_valid(public_key: Seq<u8>, message: Seq<u8>, signature: Seq<u8>) -> bool;

/// Checks `signature` over `message` with `ed25519_dalek::VerifyingKey::verify`
/// (the key decoded with `VerifyingKey::from_bytes`, the signature with
/// `Signature::from_bytes`). Claimed: the answer depends on the three byte
/// strings alone.
#[verifier::external_body]
fn ed25519_verify(public_key: &[u8], message: &[u8], signature: &[u8]) -> (ok: bool)
    requires
        public_key@.len() == 32,
        signature@.len() == 64,
    ensures
        ok == ed25519_signature_valid(public_key@, message@, signature@),
{
    let key: [u8; 32] = public_key.try_into().unwrap();
    let sig: [u8; 64] = signature.try_into().unwrap();
    match VerifyingKey::from_bytes(&key) {
        Ok(vk) => vk.verify(message, &Signature::from_bytes(&sig)).is_ok(),
        Err(_) => false,
    }
}

/// Ed25519 signature verifier over a list of trust anchors.
///
/// Trust anchors are loaded at startup from the embedded binary list and
/// any additional anchors stored in `core.sqlite`.
pub struct Ed25519Verifier {
    anchors: Vec<TrustAnchor>,
}

/// Index of the first trusted anchor with key id `signer_id`.
pub open spec fn first_trusted_anchor(anchors: Seq<TrustAnchor>, signer_id: Seq<char>) -> Option<int> {
    if exists|i: int| 0 <= i < anchors.len() && anchor_matches(anchors[i], signer_id) {
        Some(choose|i: int| 0 <= i < anchors.len() && anchor_matches(anchors[i], signer_id)
            && forall|j: int| 0 <= j < i ==> !anchor_matches(anchors[j], signer_id))
    } else {
        None
    }
}

/// `true` iff `a` is a trusted anchor for `signer_id`.
pub open spec fn anchor_matches(a: TrustAnchor, signer_id: Seq<char>) -> bool {
    a.signing_key_id@ == signer_id && a.status == TrustAnchorStatus::Trusted
}

/// When a signature from `signer_id` over `message` is accepted.
pub open spec fn signature_accepted(
    anchors: Seq<TrustAnchor>,
    signer_id: Seq<char>,
    message: Seq<u8>,
    signature: Seq<u8>,
) -> bool {
    match first_trusted_anchor(anchors, signer_id) {
        Some(i) => {
            let pk = anchors[i].public_key_bytes@;
            &&& pk.len() == 32
            &&& ed25519_key_decodes(pk)
            &&& signature.len() == 64
            &&& ed25519_signature_valid(pk, message, signature)
        },
        None => false,
    }
}

/// Whom a signature is checked against. A signature is accepted only when
/// some anchor registered for the signer's key id is trusted, and it is then
/// checked against the first such anchor: its public key must be 32 bytes that
/// decode, the signature 64 bytes, and Ed25519 must accept the signature over
/// the message under that key. Anchors of other key ids and anchors that are
/// no longer trusted never take part.
pub proof fn lemma_signature_needs_trusted_anchor(
    anchors: Seq<TrustAnchor>,
    signer_id: Seq<char>,
    message: Seq<u8>,
    signature: Seq<u8>,
)
    ensures
        (forall|i: int| 0 <= i < anchors.len() ==> !((#[trigger] anchors[i]).signing_key_id@ == signer_id
            && anchors[i].status == TrustAnchorStatus::Trusted))
            ==> !signature_accepted(anchors, signer_id, message, signature),
        signature_accepted(anchors, signer_id, message, signature) ==> exists|i: int| {
            &&& 0 <= i < anchors.len()
            &&& (#[trigger] anchors[i]).signing_key_id@ == signer_id
            &&& anchors[i].status == TrustAnchorStatus::Trusted
            &&& forall|j: int| 0 <= j < i ==> !((#[trigger] anchors[j]).signing_key_id@ == signer_id
                && anchors[j].status == TrustAnchorStatus::Trusted)
            &&& anchors[i].public_key_bytes@.len() == 32
            &&& ed25519_key_decodes(anchors[i].public_key_bytes@)
            &&& signature.len() == 64
            &&& ed25519_signature_valid(anchors[i].public_key_bytes@, message, signature)
        },
{
    if exists|k: int| 0 <= k < anchors.len() && anchor_matches(anchors[k], signer_id) {
        let k = choose|k: int| 0 <= k < anchors.len() && anchor_matches(anchors[k], signer_id);
        lemma_first_match_exists(anchors, signer_id, k);
        let i = first_trusted_anchor(anchors, signer_id)->0;
        assert(0 <= i < anchors.len() && anchor_matches(anchors[i], signer_id));
        assert(forall|j: int| 0 <= j < i ==> !anchor_matches(anchors[j], signer_id));
    }
}

proof fn lemma_first_match_exists(anchors: Seq<TrustAnchor>, signer_id: Seq<char>, k: int)
    requires
        0 <= k < anchors.len(),
        anchor_matches(anchors[k], signer_id),
    ensures
        exists|i: int| 0 <= i < anchors.len() && anchor_matches(anchors[i], signer_id)
            && forall|j: int| 0 <= j < i ==> !anchor_matches(anchors[j], signer_id),
    decreases k,
{
    if exists|j: int| 0 <= j < k && anchor_matches(anchors[j], signer_id) {
        let j = choose|j: int| 0 <= j < k && anchor_matches(anchors[j], signer_id);
        lemma_first_match_exists(anchors, signer_id, j);
    } else {
        assert(forall|j: int| 0 <= j < k ==> !anchor_matches(anchors[j], signer_id));
    }
}

impl Ed25519Verifier {
    /// The anchors this verifier trusts.
    pub closed spec fn anchors_view(&self) -> Seq<TrustAnchor> {
        self.anchors@
    }

    /// A verifier over the given trust anchors.
    pub fn new(anchors: Vec<TrustAnchor>) -> (v: Self)
        ensures
            v.anchors_view() == anchors@,
    {
        Ed25519Verifier { anchors }
    }

    /// Verify `signature` over `message` against the first trusted anchor
    /// registered for `signer_id`.
    pub fn verify_ed25519(&self, signer_id: &str, message: &[u8], signature: &[u8]) -> (r: Result<(), CoreError>)
        ensures
            r is Ok <==> signature_accepted(self.anchors_view(), signer_id@, message@, signature@),
            r matches Err(e) ==> e is SignatureVerificationFailed,
    {
        let n = self.anchors.len();
        let ghost anchors = self.anchors@;
        let mut found: Option<usize> = None;
        for i in 0..n
            invariant
                n == anchors.len(),
                anchors == self.anchors@,
                found is None ==> forall|j: int| 0 <= j < i ==> !anchor_matches(anchors[j], signer_id@),
                found matches Some(k) ==> k < n && anchor_matches(anchors[k as int], signer_id@)
                    && forall|j: int| 0 <= j < k ==> !anchor_matches(anchors[j], signer_id@),
        {
            if found.is_none() {
                let a = &self.anchors[i];
                if a.signing_key_id.as_str().to_owned() == signer_id.to_owned()
                    && a.status == TrustAnchorStatus::Trusted {
                    found = Some(i);
                }
            }
        }
        let idx = match found {
            Some(k) => k,
            None => {
                return Err(CoreError::SignatureVerificationFailed);
            },
        };
        proof {
            let c = choose|c: int| 0 <= c < anchors.len() && anchor_matches(anchors[c], signer_id@)
                && forall|j: int| 0 <= j < c ==> !anchor_matches(anchors[j], signer_id@);
            assert(anchor_matches(anchors[idx as int], signer_id@));
            if c < idx as int {
            } else if c > idx as int {
            }
            assert(c == idx as int);
        }
        let anchor = &self.anchors[idx];
        if anchor.verifying_key().is_err() {
            return Err(CoreError::SignatureVerificationFailed);
        }
        if signature.len() != 64 {
            return Err(CoreError::SignatureVerificationFailed);
        }
        if ed25519_verify(anchor.public_key_bytes.as_slice(), message, signature) {
            Ok(())
        } else {
            Err(CoreError::SignatureVerificationFailed)
        }
    }
}

/// KDF algorithm identifier stored in unlock slots.
#[derive(Debug, Clone, Copy, PartialEq, Eq, Structural)]
pub enum KdfAlg {
    Argon2id,
}

/// An unlock slot record (stored in `facade.sqlite` with obfuscated column names).
///
/// Never stores the raw unlock sequence or passcode; only the KDF verifier hash.
#[derive(Debug, Clone)]
pub struct UnlockSlot {
    pub unlock_slot_id: String,
    pub kdf_alg: KdfAlg,
    /// Argon2id parameters encoded as JSON.
    pub kdf_params_json: String,
    /// KDF salt (16–32 bytes).
    pub salt: Vec<u8>,
    /// The expected KDF output; compared in constant time.
    pub verifier_hash: Vec<u8>,
    /// ID of the wrapped key this slot unlocks.
    pub wrapped_key_id: Option<String>,
    pub failure_count: u32,
    pub created_at: i64,
    pub updated_at: i64,
}

/// Argon2id parameters.
#[derive(Debug, Clone, Copy)]
pub struct Argon2Params {
    pub m_cost: u32,
    pub t_cost: u32,
    pub p_cost: u32,
    pub output_len: usize,
}

impl Default for Argon2Params {
    fn default() -> (p: Self)
        ensures
            p.m_cost == 32 * 1024,
            p.t_cost == 2,
            p.p_cost == 1,
            p.output_len == 32,
    {
        // Deliberately modest parameters for low-end hardware (ARMv7).
        Argon2Params {
            m_cost: 32 * 1024, // 32 MiB
            t_cost: 2,
            p_cost: 1,
            output_len: 32,
        }
    }
}

/// The Argon2id (version 0x13) output of `password` with `salt` under the
/// given cost parameters, as computed by the `argon2` crate.
pub uninterp spec fn argon2id_spec(
    m_cost: u32,
    t_cost: u32,
    p_cost: u32,
    output_len: usize,
    password: Seq<u8>,
    salt: Seq<u8>,
) -> Seq<u8>;

/// When the `argon2` crate accepts the parameters and inputs
/// (`Params::new` limits, then the password and salt length limits).
pub open spec fn argon2id_accepts(p: Argon2Params, password_len: nat, salt_len: nat) -> bool {
    &&& p.m_cost >= 8
    &&& p.m_cost >= 8 * p.p_cost
    &&& p.t_cost >= 1
    &&& 1 <= p.p_cost <= 0xFFFFFF
    &&& 4 <= p.output_len <= 0xFFFF_FFFF
    &&& password_len <= 0xFFFF_FFFF
    &&& 8 <= salt_len <= 0xFFFF_FFFF
}

/// Derives an Argon2id key: `argon2::Params::new`, `argon2::Argon2::new`
/// (Argon2id, version 0x13) and `Argon2::hash_password_into` into a buffer of
/// `output_len` bytes; errors are rendered with `to_string`.
/// Claimed: success exactly when the crate's parameter and input limits hold;
/// on success the output has `output_len` bytes and depends on the arguments
/// alone. Not claimed: that memory for `m_cost` KiB can be allocated.
#[verifier::external_body]
fn argon2id_derive(params: Argon2Params, password: &[u8], salt: &[u8]) -> (r: Result<Vec<u8>, String>)
    requires
        params.p_cost * 8 <= u32::MAX,
    ensures
        r is Ok <==> argon2id_accepts(params, password@.len(), salt@.len()),
        r matches Ok(out) ==> out@ == argon2id_spec(
            params.m_cost,
            params.t_cost,
            params.p_cost,
            params.output_len,
            password@,
            salt@,
        ) && out@.len() == params.output_len,
{
    let p = argon2::Params::new(params.m_cost, params.t_cost, params.p_cost, Some(params.output_len))
        .map_err(|e| e.to_string())?;
    let kdf = argon2::Argon2::new(argon2::Algorithm::Argon2id, argon2::Version::V0x13, p);
    let mut out = vec![0u8; params.output_len];
    kdf.hash_password_into(password, salt, &mut out).map_err(|e| e.to_string())?;
    Ok(out)
}

/// Clears `bytes` with `zeroize::Zeroize::zeroize` for `Vec<u8>`, which zeroes
/// the elements and spare capacity and then empties the vector.
/// Claimed: the vector is empty afterwards.
#[verifier::external_body]
fn zeroize_bytes(bytes: &mut Vec<u8>)
    ensures
        final(bytes)@.len() == 0,
{
    bytes.zeroize();
}

/// Whether `sequence` unlocks `slot` under the Argon2id `params` recorded for it.
pub open spec fn unlock_matches(slot: UnlockSlot, params: Argon2Params, sequence: Seq<u8>) -> bool {
    argon2id_spec(params.m_cost, params.t_cost, params.p_cost, params.output_len, sequence, slot.salt@)
        == slot.verifier_hash@
}

/// Derive the KDF output of `sequence_bytes` with the slot's salt and compare
/// it in constant time with the slot's verifier hash.
pub fn verify_against_slot(slot: &UnlockSlot, params: &Argon2Params, sequence_bytes: &[u8]) -> (r: Result<bool, CoreError>)
    requires
        params.p_cost * 8 <= u32::MAX,
    ensures
        r is Ok <==> argon2id_accepts(*params, sequence_bytes@.len(), slot.salt@.len()),
        r matches Ok(b) ==> b == unlock_matches(*slot, *params, sequence_bytes@),
        r matches Err(e) ==> e is Crypto,
{
    let mut derived = match argon2id_derive(*params, sequence_bytes, slot.salt.as_slice()) {
        Ok(d) => d,
        Err(msg) => {
            return Err(CoreError::Crypto(msg));
        },
    };
    // Constant-time comparison to avoid timing side-channels.
    let matched = constant_time_eq(derived.as_slice(), slot.verifier_hash.as_slice());
    zeroize_bytes(&mut derived);
    Ok(matched)
}

/// Constant-time byte slice comparison.
pub fn constant_time_eq(a: &[u8], b: &[u8]) -> (r: bool)
    ensures
        r == (a@ == b@),
{
    if a.len() != b.len() {
        return false;
    }
    let n = a.len();
    let mut diff: u8 = 0;
    for i in 0..n
        invariant
            n == a@.len(),
            n == b@.len(),
            (diff == 0) <==> (forall|j: int| 0 <= j < i ==> a@[j] == b@[j]),
    {
        let x = a[i];
        let y = b[i];
        let old_diff = diff;
        diff = diff | (x ^ y);
        assert((old_diff | (x ^ y)) == 0u8 <==> (old_diff == 0u8 && x == y)) by (bit_vector);
    }
    assert(diff == 0 ==> a@ =~= b@);
    diff == 0
}

/// Argon2id-backed unlock verifier.
pub struct Argon2Verifier {
    pub slot: UnlockSlot,
    pub duress_slot: Option<UnlockSlot>,
}

impl Argon2Verifier {
    /// Check the unlock sequence against the main slot, whose recorded KDF
    /// parameters are `params`.
    pub fn verify_unlock_sequence(&self, params: &Argon2Params, sequence_bytes: &[u8]) -> (r: Result<bool, CoreError>)
        requires
            params.p_cost * 8 <= u32::MAX,
        ensures
            r is Ok <==> argon2id_accepts(*params, sequence_bytes@.len(), self.slot.salt@.len()),
            r matches Ok(b) ==> b == unlock_matches(self.slot, *params, sequence_bytes@),
            r matches Err(e) ==> e is Crypto,
    {
        verify_against_slot(&self.slot, params, sequence_bytes)
    }

    /// Check the sequence against the duress slot (if one is configured),
    /// whose recorded KDF parameters are `params`.
    pub fn verify_duress_sequence(&self, params: &Argon2Params, sequence_bytes: &[u8]) -> (r: Result<bool, CoreError>)
        requires
            params.p_cost * 8 <= u32::MAX,
        ensures
            match self.duress_slot {
                Some(slot) => {
                    &&& r is Ok <==> argon2id_accepts(*params, sequence_bytes@.len(), slot.salt@.len())
                    &&& r matches Ok(b) ==> b == unlock_matches(slot, *params, sequence_bytes@)
                    &&& r matches Err(e) ==> e is Crypto
                },
                None => r == Ok::<bool, CoreError>(false),
            },
    {
        match &self.duress_slot {
            Some(slot) => verify_against_slot(slot, params, sequence_bytes),
            None => Ok(false),
        }
    }
}

} // verus!
