//! Crypto key slot model.
//!
//! Key material is never stored in plaintext. Each slot stores a wrapped
//! (encrypted) key that is only usable after the correct unlock sequence
//! has been verified.
//!
//! On panic wipe, key slots are overwritten with random bytes before
//! any slower deletion tasks run.

use vstd::prelude::*;

verus! {

/// Purpose of a crypto key slot.
#[derive(Debug, Clone, Copy, PartialEq, Eq, Structural)]
pub enum KeyPurpose {
    /// Encrypts the core SQLite database.
    State,
    /// Encrypts the content catalog metadata.
    Catalog,
    /// Encrypts individual content objects.
    Object,
    /// Used during sync to wrap per-session transfer keys.
    Sync,
}

/// Lifecycle status of a key slot.
#[derive(Debug, Clone, Copy, PartialEq, Eq, Structural)]
pub enum KeyStatus {
    Active,
    Retired,
    Destroyed,
}

/// A persisted wrapped-key record (stored in `facade.sqlite`).
///
/// The actual key material is never stored here in plaintext; only the
/// wrapped (encrypted) form is persisted.
#[derive(Debug, Clone)]
pub struct CryptoKeySlot {
    pub key_id: String,
    pub purpose: KeyPurpose,
    /// The wrapped key bytes. Overwritten with random noise during wipe.
    pub wrapped_key: Vec<u8>,
    pub alg: String,
    pub created_at: i64,
    pub rotated_at: Option<i64>,
    pub status: KeyStatus,
}

/// In-memory representation of a derived (unwrapped) symmetric key.
///
/// Never serialised or written to disk.
#[derive(Clone)]
pub struct DerivedKey(pub [u8; 32]);

impl DerivedKey {
    /// The debug rendering of a derived key, which never shows the key bytes.
    pub fn debug_text(&self) -> (s: String)
        ensures
            s@ == "DerivedKey([REDACTED])"@,
    {
        String::from_str("DerivedKey([REDACTED])")
    }
}

} // verus!
