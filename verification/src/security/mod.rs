//! Cryptography, key slots, trust anchors, revocation, panic wipe and the
//! static security audit. Raw secret key material is never exposed.

pub mod audit;
pub mod hash;
pub mod key_slot;
pub mod revocation;
pub mod trust_anchor;
pub mod verifiers;
pub mod wipe;
