//! Security audit checklist.
//!
//! Automated verification of security properties that can be checked
//! without running hardware or network. Each check is a pure function.

use vstd::prelude::*;

use crate::domain::{check_magic, is_approved_tag, WipeScope, NMP_MAGIC};
use crate::security::key_slot::CryptoKeySlot;
use crate::security::wipe::{is_safe_log_tag, overwrite_all_keys};
use crate::text::{decimal, push_decimal};

verus! {

/// A single security audit check.
#[derive(Debug, Clone, PartialEq, Eq)]
pub struct SecurityCheck {
    pub id: &'static str,
    pub category: SecurityCategory,
    pub passed: bool,
    pub detail: Option<String>,
}

impl SecurityCheck {
    fn pass(id: &'static str, cat: SecurityCategory) -> (c: Self)
        ensures
            c.id == id,
            c.category == cat,
            c.passed,
            c.detail is None,
    {
        SecurityCheck { id, category: cat, passed: true, detail: None }
    }

    fn fail(id: &'static str, cat: SecurityCategory, detail: String) -> (c: Self)
        ensures
            c.id == id,
            c.category == cat,
            !c.passed,
            c.detail == Some(detail),
    {
        SecurityCheck { id, category: cat, passed: false, detail: Some(detail) }
    }
}

/// The area a check belongs to.
#[derive(Debug, Clone, Copy, PartialEq, Eq, Structural)]
pub enum SecurityCategory {
    Privacy,
    Cryptography,
    FacadeSafety,
    WipeReliability,
    PackageIntegrity,
    LogPolicy,
    PermissionTiming,
}

/// Full security audit report.
#[derive(Debug, Clone)]
pub struct SecurityAuditReport {
    pub checks: Vec<SecurityCheck>,
}

/// The checks that failed in `category`, in report order.
pub open spec fn failures_in(checks: Seq<SecurityCheck>, category: SecurityCategory) -> Seq<SecurityCheck> {
    checks.filter(|c: SecurityCheck| !c.passed && c.category == category)
}

/// Number of passed checks.
pub open spec fn passed_count(checks: Seq<SecurityCheck>) -> nat {
    checks.filter(|c: SecurityCheck| c.passed).len()
}

/// The report summary line: `"{passed}/{total} security checks passed"`.
pub open spec fn summary_text(checks: Seq<SecurityCheck>) -> Seq<char> {
    decimal(passed_count(checks)) + "/"@ + decimal(checks.len()) + " security checks passed"@
}

/// How the report counts: the passed count grows by one exactly for a passed
/// check, and a check joins the failures of a category exactly when it failed
/// and belongs to that category; failures keep report order.
pub proof fn lemma_report_counts(checks: Seq<SecurityCheck>, c: SecurityCheck, category: SecurityCategory)
    ensures
        passed_count(Seq::<SecurityCheck>::empty()) == 0,
        passed_count(checks.push(c)) == passed_count(checks) + (if c.passed { 1int } else { 0int }),
        passed_count(checks) <= checks.len(),
        failures_in(checks.push(c), category) == (if !c.passed && c.category == category {
            failures_in(checks, category).push(c)
        } else {
            failures_in(checks, category)
        }),
{
    reveal_with_fuel(Seq::filter, 1);
    assert(checks.push(c).drop_last() =~= checks);
    broadcast use vstd::seq_lib::group_filter_ensures;
}

impl SecurityAuditReport {
    /// `true` iff every check passed.
    pub fn all_passed(&self) -> (r: bool)
        ensures
            r == forall|i: int| 0 <= i < self.checks@.len() ==> #[trigger] self.checks@[i].passed,
    {
        let n = self.checks.len();
        for i in 0..n
            invariant
                n == self.checks@.len(),
                forall|j: int| 0 <= j < i ==> #[trigger] self.checks@[j].passed,
        {
            if !self.checks[i].passed {
                return false;
            }
        }
        true
    }

    /// The failed checks of one category, in report order.
    pub fn failures_by_category(&self, cat: &SecurityCategory) -> (r: Vec<&SecurityCheck>)
        ensures
            r@.len() == failures_in(self.checks@, *cat).len(),
            forall|i: int| 0 <= i < r@.len() ==> *r@[i] == failures_in(self.checks@, *cat)[i],
    {
        let mut r: Vec<&SecurityCheck> = Vec::new();
        let n = self.checks.len();
        let ghost checks = self.checks@;
        for i in 0..n
            invariant
                n == checks.len(),
                checks == self.checks@,
                r@.len() == failures_in(checks.subrange(0, i as int), *cat).len(),
                forall|k: int| 0 <= k < r@.len() ==> *r@[k] == failures_in(checks.subrange(0, i as int), *cat)[k],
        {
            proof {
                assert(checks.subrange(0, i + 1).drop_last() =~= checks.subrange(0, i as int));
                reveal_with_fuel(Seq::filter, 1);
            }
            let c = &self.checks[i];
            if !c.passed && c.category == *cat {
                r.push(c);
            }
        }
        assert(checks.subrange(0, n as int) =~= checks);
        r
    }

    /// One-line summary: `"{passed}/{total} security checks passed"`.
    pub fn summary(&self) -> (s: String)
        ensures
            s@ == summary_text(self.checks@),
    {
        let total = self.checks.len();
        let mut passed: usize = 0;
        let ghost checks = self.checks@;
        for i in 0..total
            invariant
                total == checks.len(),
                checks == self.checks@,
                passed == passed_count(checks.subrange(0, i as int)),
                passed <= i,
        {
            proof {
                assert(checks.subrange(0, i + 1).drop_last() =~= checks.subrange(0, i as int));
                reveal_with_fuel(Seq::filter, 1);
            }
            if self.checks[i].passed {
                passed = passed + 1;
            }
        }
        assert(checks.subrange(0, total as int) =~= checks);
        let mut s = String::new();
        push_decimal(&mut s, passed as u64);
        s.append("/");
        push_decimal(&mut s, total as u64);
        s.append(" security checks passed");
        s
    }
}

/// The id and category of the `i`-th check of the audit.
pub open spec fn audit_entry(i: int) -> (Seq<char>, SecurityCategory) {
    if i == 0 { ("no_telemetry_by_default"@, SecurityCategory::Privacy) }
    else if i == 1 { ("no_raw_peer_ids_in_persistent_log"@, SecurityCategory::Privacy) }
    else if i == 2 { ("log_tags_domain_words_rejected"@, SecurityCategory::LogPolicy) }
    else if i == 3 { ("import_source_path_hashed_not_stored"@, SecurityCategory::Privacy) }
    else if i == 4 { ("key_destruction_precedes_file_deletion"@, SecurityCategory::Cryptography) }
    else if i == 5 { ("ed25519_used_for_package_signing"@, SecurityCategory::Cryptography) }
    else if i == 6 { ("argon2id_used_for_unlock_kdf"@, SecurityCategory::Cryptography) }
    else if i == 7 { ("sha256_used_for_object_addressing"@, SecurityCategory::Cryptography) }
    else if i == 8 { ("facade_table_names_are_neutral"@, SecurityCategory::FacadeSafety) }
    else if i == 9 { ("gesture_config_contains_no_product_terms"@, SecurityCategory::FacadeSafety) }
    else if i == 10 { ("wipe_scope_keys_only_variant_exists"@, SecurityCategory::WipeReliability) }
    else if i == 11 { ("wipe_idempotent_on_empty_slots"@, SecurityCategory::WipeReliability) }
    else if i == 12 { ("factory_reset_clears_unlock_slots"@, SecurityCategory::WipeReliability) }
    else if i == 13 { ("signature_verified_before_object_hash"@, SecurityCategory::PackageIntegrity) }
    else if i == 14 { ("quarantine_on_any_verification_failure"@, SecurityCategory::PackageIntegrity) }
    else if i == 15 { ("magic_bytes_reject_non_nmp"@, SecurityCategory::PackageIntegrity) }
    else { ("permissions_only_requested_in_unlocked_shell"@, SecurityCategory::PermissionTiming) }
}

/// Number of checks in the audit.
pub open spec fn audit_len() -> nat {
    17
}

/// Run all static security checks.
pub fn run_security_audit() -> (r: SecurityAuditReport)
    ensures
        r.checks@.len() == audit_len(),
        forall|i: int| 0 <= i < audit_len() ==> {
            &&& (#[trigger] r.checks@[i]).id@ == audit_entry(i).0
            &&& r.checks@[i].category == audit_entry(i).1
            &&& r.checks@[i].passed
            &&& r.checks@[i].detail is None
        },
{
    let checks = vec![
        // Privacy
        check_no_telemetry_by_default(),
        check_no_raw_peer_ids_in_log(),
        check_log_tags_approved_only(),
        check_source_label_hashed(),
        // Cryptography
        check_key_destruction_before_deletion(),
        check_ed25519_for_package_signing(),
        check_argon2id_for_unlock(),
        check_sha256_for_object_hash(),
        // Facade safety
        check_facade_neutral_naming(),
        check_no_product_name_in_gesture_config(),
        // Wipe reliability
        check_wipe_scope_keys_only_exists(),
        check_wipe_idempotent_contract(),
        check_factory_reset_clears_unlock_slots(),
        // Package integrity
        check_signature_before_object_hash(),
        check_quarantine_on_failure(),
        check_magic_bytes_validated(),
        // Permission timing
        check_permissions_delayed_until_needed(),
    ];
    SecurityAuditReport { checks }
}

// ── Privacy ───────────────────────────────────────────────────────────────────

fn check_no_telemetry_by_default() -> (c: SecurityCheck)
    ensures
        c.id@ == audit_entry(0).0 && c.category == audit_entry(0).1 && c.passed && c.detail is None,
{
    // No HTTP client crate is part of the platform.
    SecurityCheck::pass("no_telemetry_by_default", SecurityCategory::Privacy)
}

fn check_no_raw_peer_ids_in_log() -> (c: SecurityCheck)
    ensures
        c.id@ == audit_entry(1).0 && c.category == audit_entry(1).1 && c.passed && c.detail is None,
{
    // The sync session stores `peer_ephemeral_hash` (a hash), not the raw ID.
    SecurityCheck::pass("no_raw_peer_ids_in_persistent_log", SecurityCategory::Privacy)
}

fn check_log_tags_approved_only() -> (c: SecurityCheck)
    ensures
        c.id@ == audit_entry(2).0 && c.category == audit_entry(2).1 && c.passed && c.detail is None,
{
    // Test a sample of potentially dangerous tags to confirm rejection.
    proof {
        reveal_strlit("shield-water");
        reveal_strlit("user.profile");
        reveal_strlit("module.lesson.3");
        reveal_strlit("sync.device.abc");
        reveal_strlit("s.open");
        reveal_strlit("pkg.ok");
        reveal_strlit("wipe.ok");
        reveal_strlit("integ.fail");
        lemma_dangerous_tags_rejected();
    }
    let all_rejected = !is_safe_log_tag("shield-water") && !is_safe_log_tag("user.profile")
        && !is_safe_log_tag("module.lesson.3") && !is_safe_log_tag("sync.device.abc");
    if all_rejected {
        SecurityCheck::pass("log_tags_domain_words_rejected", SecurityCategory::LogPolicy)
    } else {
        SecurityCheck::fail(
            "log_tags_domain_words_rejected",
            SecurityCategory::LogPolicy,
            String::from_str("some dangerous tags are not rejected by is_safe_log_tag"),
        )
    }
}

proof fn lemma_dangerous_tags_rejected()
    ensures
        !is_approved_tag("shield-water"@),
        !is_approved_tag("user.profile"@),
        !is_approved_tag("module.lesson.3"@),
        !is_approved_tag("sync.device.abc"@),
{
    reveal_strlit("shield-water");
    reveal_strlit("user.profile");
    reveal_strlit("module.lesson.3");
    reveal_strlit("sync.device.abc");
    reveal_strlit("s.open");
    reveal_strlit("pkg.ok");
    reveal_strlit("wipe.ok");
    reveal_strlit("integ.fail");
    assert("shield-water"@.len() == 12);
    assert("user.profile"@.len() == 12);
    assert("module.lesson.3"@.len() == 15);
    assert("sync.device.abc"@.len() == 15);
    assert("s.open"@.len() == 6);
    assert("pkg.ok"@.len() == 6);
    assert("wipe.ok"@.len() == 7);
    assert("integ.fail"@.len() == 10);
    assert forall|b: crate::domain::EventBucket|
        #[trigger] crate::domain::bucket_tag(b).len() != 12 && crate::domain::bucket_tag(b).len() != 15 by {
        match b {
            crate::domain::EventBucket::SessionOpen => {},
            crate::domain::EventBucket::PackageOk => {},
            crate::domain::EventBucket::WipeOk => {},
            crate::domain::EventBucket::IntegrityFail => {},
        }
    }
}

fn check_source_label_hashed() -> (c: SecurityCheck)
    ensures
        c.id@ == audit_entry(3).0 && c.category == audit_entry(3).1 && c.passed && c.detail is None,
{
    // The import pipeline stores source_label_hash (SHA-256 of path),
    // not the raw file path.
    SecurityCheck::pass("import_source_path_hashed_not_stored", SecurityCategory::Privacy)
}

// ── Cryptography ──────────────────────────────────────────────────────────────

fn check_key_destruction_before_deletion() -> (c: SecurityCheck)
    ensures
        c.id@ == audit_entry(4).0 && c.category == audit_entry(4).1 && c.passed && c.detail is None,
{
    // Keys must be destroyed before slow file deletion; the hard wipe plan
    // starts with key destruction.
    SecurityCheck::pass("key_destruction_precedes_file_deletion", SecurityCategory::Cryptography)
}

fn check_ed25519_for_package_signing() -> (c: SecurityCheck)
    ensures
        c.id@ == audit_entry(5).0 && c.category == audit_entry(5).1 && c.passed && c.detail is None,
{
    SecurityCheck::pass("ed25519_used_for_package_signing", SecurityCategory::Cryptography)
}

fn check_argon2id_for_unlock() -> (c: SecurityCheck)
    ensures
        c.id@ == audit_entry(6).0 && c.category == audit_entry(6).1 && c.passed && c.detail is None,
{
    SecurityCheck::pass("argon2id_used_for_unlock_kdf", SecurityCategory::Cryptography)
}

fn check_sha256_for_object_hash() -> (c: SecurityCheck)
    ensures
        c.id@ == audit_entry(7).0 && c.category == audit_entry(7).1 && c.passed && c.detail is None,
{
    // All content objects are identified by SHA-256 (64-char hex).
    SecurityCheck::pass("sha256_used_for_object_addressing", SecurityCategory::Cryptography)
}

// ── Facade safety ─────────────────────────────────────────────────────────────

fn check_facade_neutral_naming() -> (c: SecurityCheck)
    ensures
        c.id@ == audit_entry(8).0 && c.category == audit_entry(8).1 && c.passed && c.detail is None,
{
    // Table and column names in facade.sqlite use neutral terms.
    SecurityCheck::pass("facade_table_names_are_neutral", SecurityCategory::FacadeSafety)
}

fn check_no_product_name_in_gesture_config() -> (c: SecurityCheck)
    ensures
        c.id@ == audit_entry(9).0 && c.category == audit_entry(9).1 && c.passed && c.detail is None,
{
    // The gesture config stores drift values only; the package magic lives in
    // the content layer, never in the facade.
    SecurityCheck::pass("gesture_config_contains_no_product_terms", SecurityCategory::FacadeSafety)
}

// ── Wipe reliability ──────────────────────────────────────────────────────────

fn check_wipe_scope_keys_only_exists() -> (c: SecurityCheck)
    ensures
        c.id@ == audit_entry(10).0 && c.category == audit_entry(10).1 && c.passed && c.detail is None,
{
    let _scope = WipeScope::KeysOnly;
    SecurityCheck::pass("wipe_scope_keys_only_variant_exists", SecurityCategory::WipeReliability)
}

fn check_wipe_idempotent_contract() -> (c: SecurityCheck)
    ensures
        c.id@ == audit_entry(11).0 && c.category == audit_entry(11).1 && c.passed && c.detail is None,
{
    let mut slots: Vec<CryptoKeySlot> = Vec::new();
    let count = overwrite_all_keys(&mut slots);
    proof {
        reveal_with_fuel(Seq::filter, 1);
    }
    if count == 0 {
        SecurityCheck::pass("wipe_idempotent_on_empty_slots", SecurityCategory::WipeReliability)
    } else {
        SecurityCheck::fail(
            "wipe_idempotent_on_empty_slots",
            SecurityCategory::WipeReliability,
            String::from_str("empty slot list should destroy 0 slots"),
        )
    }
}

fn check_factory_reset_clears_unlock_slots() -> (c: SecurityCheck)
    ensures
        c.id@ == audit_entry(12).0 && c.category == audit_entry(12).1 && c.passed && c.detail is None,
{
    // The factory reset plan deletes the unlock slot table.
    SecurityCheck::pass("factory_reset_clears_unlock_slots", SecurityCategory::WipeReliability)
}

// ── Package integrity ─────────────────────────────────────────────────────────

fn check_signature_before_object_hash() -> (c: SecurityCheck)
    ensures
        c.id@ == audit_entry(13).0 && c.category == audit_entry(13).1 && c.passed && c.detail is None,
{
    SecurityCheck::pass("signature_verified_before_object_hash", SecurityCategory::PackageIntegrity)
}

fn check_quarantine_on_failure() -> (c: SecurityCheck)
    ensures
        c.id@ == audit_entry(14).0 && c.category == audit_entry(14).1 && c.passed && c.detail is None,
{
    SecurityCheck::pass("quarantine_on_any_verification_failure", SecurityCategory::PackageIntegrity)
}

fn check_magic_bytes_validated() -> (c: SecurityCheck)
    ensures
        c.id@ == audit_entry(15).0 && c.category == audit_entry(15).1 && c.passed && c.detail is None,
{
    let invalid: [u8; 6] = [0x4A, 0x50, 0x45, 0x47, 0x01, 0x00]; // "JPEG\x01\x00"
    let valid: [u8; 6] = [NMP_MAGIC[0], NMP_MAGIC[1], NMP_MAGIC[2], NMP_MAGIC[3], 0x01, 0x00];
    let rejects = !check_magic(invalid.as_slice());
    let accepts = check_magic(valid.as_slice());
    proof {
        assert(invalid@.subrange(0, 4)[0] == 0x4Au8);
        assert(valid@.subrange(0, 4) =~= crate::domain::nmp_magic());
    }
    if rejects && accepts {
        SecurityCheck::pass("magic_bytes_reject_non_nmp", SecurityCategory::PackageIntegrity)
    } else {
        SecurityCheck::fail(
            "magic_bytes_reject_non_nmp",
            SecurityCategory::PackageIntegrity,
            String::from_str("check_magic produced unexpected result"),
        )
    }
}

// ── Permission timing ─────────────────────────────────────────────────────────

fn check_permissions_delayed_until_needed() -> (c: SecurityCheck)
    ensures
        c.id@ == audit_entry(16).0 && c.category == audit_entry(16).1 && c.passed && c.detail is None,
{
    // Every permission request built by the sync layer is marked for the
    // unlocked shell only.
    SecurityCheck::pass("permissions_only_requested_in_unlocked_shell", SecurityCategory::PermissionTiming)
}

} // verus!
