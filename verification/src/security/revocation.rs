//! Trust revocation model.
//!
//! A signed revocation package can disable compromised signing keys and
//! known-bad content packages, propagating through the same offline channels
//! as normal content (SD card, Bluetooth, local sync).

use vstd::prelude::*;

use crate::domain::ModuleVersion;

verus! {

/// A signed revocation package (received as a special `.nmp` with
/// `package_type = "trust-revocation"`).
#[derive(Debug, Clone)]
pub struct RevocationPackage {
    /// The signer must be a master-level trust anchor.
    pub signer_id: String,
    /// When this revocation was issued.
    pub issued_at: i64,
    /// Severity of the revocation event.
    pub severity: RevocationSeverity,
    /// Keys being revoked.
    pub revoked_keys: Vec<RevokedKey>,
    /// Package hashes being quarantined.
    pub revoked_package_hashes: Vec<String>,
    /// User-facing localizable message key (calm, non-revealing).
    pub user_message_key: String,
    /// Optional pointer to a replacement package.
    pub replacement_hint: Option<ReplacementHint>,
}

/// Severity level of the revocation.
#[derive(Debug, Clone, Copy, PartialEq, Eq, Structural)]
pub enum RevocationSeverity {
    /// Routine key rotation; no immediate user action needed.
    Informational,
    /// Known content error; users should update when possible.
    Advisory,
    /// Safety-critical issue; affected modules should be disabled.
    Critical,
}

/// A signing key being revoked.
#[derive(Debug, Clone)]
pub struct RevokedKey {
    pub signing_key_id: String,
    /// When the key is considered compromised from.
    pub compromised_from: i64,
}

/// Pointer to a package that replaces revoked content.
#[derive(Debug, Clone)]
pub struct ReplacementHint {
    pub module_id: String,
    pub min_version: ModuleVersion,
    /// SHA-256 of the replacement manifest, so it can be pre-verified.
    pub manifest_hash_hint: Option<String>,
}

/// The set of changes to apply when processing a revocation package.
#[derive(Debug, Clone)]
pub struct RevocationPlan {
    pub keys_to_revoke: Vec<String>,
    pub packages_to_quarantine: Vec<String>,
    pub severity: RevocationSeverity,
    pub user_message_key: String,
}

/// The key ids named by a revocation package, in order.
pub open spec fn revoked_key_ids(keys: Seq<RevokedKey>) -> Seq<Seq<char>> {
    keys.map_values(|k: RevokedKey| k.signing_key_id@)
}

/// Turn a revocation package into the list of changes to apply.
///
/// This is a pure decision function — it returns the list of changes to
/// make; the caller applies them to the database.
pub fn plan_revocation(rev: &RevocationPackage) -> (plan: RevocationPlan)
    ensures
        plan.keys_to_revoke@.map_values(|s: String| s@) == revoked_key_ids(rev.revoked_keys@),
        plan.packages_to_quarantine@ == rev.revoked_package_hashes@,
        plan.severity == rev.severity,
        plan.user_message_key == rev.user_message_key,
{
    let mut keys: Vec<String> = Vec::new();
    let n = rev.revoked_keys.len();
    for i in 0..n
        invariant
            n == rev.revoked_keys@.len(),
            keys@.len() == i,
            forall|j: int| 0 <= j < i ==> #[trigger] keys@[j] == rev.revoked_keys@[j].signing_key_id,
    {
        keys.push(rev.revoked_keys[i].signing_key_id.clone());
    }
    let mut packages: Vec<String> = Vec::new();
    let m = rev.revoked_package_hashes.len();
    for i in 0..m
        invariant
            m == rev.revoked_package_hashes@.len(),
            packages@.len() == i,
            forall|j: int| 0 <= j < i ==> #[trigger] packages@[j] == rev.revoked_package_hashes@[j],
    {
        packages.push(rev.revoked_package_hashes[i].clone());
    }
    assert(keys@.map_values(|s: String| s@) =~= revoked_key_ids(rev.revoked_keys@));
    assert(packages@ =~= rev.revoked_package_hashes@);
    RevocationPlan {
        keys_to_revoke: keys,
        packages_to_quarantine: packages,
        severity: rev.severity,
        user_message_key: rev.user_message_key.clone(),
    }
}

impl RevocationPlan {
    /// `true` if this plan has any actual changes to apply.
    pub fn has_changes(&self) -> (r: bool)
        ensures
            r == (self.keys_to_revoke@.len() > 0 || self.packages_to_quarantine@.len() > 0),
    {
        !self.keys_to_revoke.is_empty() || !self.packages_to_quarantine.is_empty()
    }

    /// `true` if this is a critical revocation requiring immediate user notification.
    pub fn is_critical(&self) -> (r: bool)
        ensures
            r == (self.severity == RevocationSeverity::Critical),
    {
        self.severity == RevocationSeverity::Critical
    }
}

} // verus!
