use ed25519_dalek::{Signer, SigningKey};

use taktakk::domain::CoreError;
use taktakk::security::audit::{run_security_audit, SecurityCategory};
use taktakk::security::hash::{sha256_hex, Sha256Hasher};
use taktakk::security::key_slot::{CryptoKeySlot, KeyPurpose, KeyStatus};
use taktakk::security::revocation::{
    plan_revocation, RevocationPackage, RevocationSeverity, RevokedKey,
};
use taktakk::security::trust_anchor::{TrustAnchor, TrustAnchorStatus};
use taktakk::security::verifiers::{
    constant_time_eq, verify_against_slot, Argon2Params, Argon2Verifier, Ed25519Verifier, KdfAlg,
    UnlockSlot,
};
use taktakk::security::wipe::{is_safe_log_tag, overwrite_all_keys, overwrite_key_slot, redact};

fn make_slot(id: &str, status: KeyStatus) -> CryptoKeySlot {
    CryptoKeySlot {
        key_id: id.to_string(),
        purpose: KeyPurpose::State,
        wrapped_key: vec![0xAA; 32],
        alg: "xchacha20poly1305".to_string(),
        created_at: 0,
        rotated_at: None,
        status,
    }
}

// --- SHA-256 ---

#[test]
fn sha256_known_vector() {
    let digest = sha256_hex(b"");
    assert!(digest.starts_with("e3b0c44298fc1c14"));
    assert_eq!(digest.len(), 64);
}

#[test]
fn sha256_deterministic() {
    let a = sha256_hex(b"taktakk");
    let b = sha256_hex(b"taktakk");
    assert_eq!(a, b);
}

#[test]
fn sha256_different_input_different_hash() {
    assert_ne!(sha256_hex(b"a"), sha256_hex(b"b"));
}

#[test]
fn sha256_abc_full_vector() {
    assert_eq!(
        Sha256Hasher.sha256_hex(b"abc"),
        "ba7816bf8f01cfea414140de5dae2223b00361a396177a9cb410ff61f20015ad"
    );
}

// --- Key slot wipe ---

#[test]
fn overwrite_key_slot_randomises_bytes() {
    let mut slot = make_slot("k1", KeyStatus::Active);
    let original = slot.wrapped_key.clone();
    overwrite_key_slot(&mut slot);
    assert_ne!(slot.wrapped_key, original);
    assert_eq!(slot.status, KeyStatus::Destroyed);
}

#[test]
fn overwrite_all_keys_counts_correctly() {
    let mut slots = vec![
        make_slot("k1", KeyStatus::Active),
        make_slot("k2", KeyStatus::Active),
        make_slot("k3", KeyStatus::Destroyed),
    ];
    let count = overwrite_all_keys(&mut slots);
    assert_eq!(count, 2);
    assert_eq!(slots[0].status, KeyStatus::Destroyed);
    assert_eq!(slots[1].status, KeyStatus::Destroyed);
    assert_eq!(slots[2].status, KeyStatus::Destroyed);
}

#[test]
fn overwrite_retired_slot() {
    let mut slots = vec![make_slot("k1", KeyStatus::Retired)];
    let count = overwrite_all_keys(&mut slots);
    assert_eq!(count, 1);
}

#[test]
fn overwrite_keeps_key_length_and_metadata() {
    let mut slot = make_slot("k9", KeyStatus::Retired);
    overwrite_key_slot(&mut slot);
    assert_eq!(slot.wrapped_key.len(), 32);
    assert_eq!(slot.key_id, "k9");
    assert_eq!(slot.alg, "xchacha20poly1305");
}

// --- Log redaction ---

#[test]
fn redact_removes_content() {
    let sensitive = "module: shield-first-aid, user: abc";
    let redacted = redact(sensitive);
    assert!(!redacted.contains("shield"));
    assert!(!redacted.contains("user"));
    assert_eq!(redacted.len(), sensitive.len());
}

#[test]
fn redact_preserves_newlines() {
    let s = "line1\nline2";
    let r = redact(s);
    assert!(r.contains('\n'));
}

#[test]
fn redact_exact_output() {
    assert_eq!(redact("ab\nc"), "**\n*");
    assert_eq!(redact(""), "");
}

// ── Wipe: overwrite ────────────────────────────────────────────────────────────

#[test]
fn seven_pass_overwrite_differs_from_original() {
    let mut slot = make_slot("k1", KeyStatus::Active);
    let original = slot.wrapped_key.clone();
    overwrite_key_slot(&mut slot);
    assert_ne!(slot.wrapped_key, original);
    assert_eq!(slot.status, KeyStatus::Destroyed);
}

#[test]
fn overwrite_all_skips_destroyed_slots() {
    let mut slots = vec![make_slot("k1", KeyStatus::Active), make_slot("k2", KeyStatus::Destroyed)];
    let count = overwrite_all_keys(&mut slots);
    assert_eq!(count, 1);
    assert_eq!(slots[1].status, KeyStatus::Destroyed);
    assert_eq!(slots[1].wrapped_key, vec![0xAA; 32]);
}

// ── Log tag safety ────────────────────────────────────────────────────────────

#[test]
fn approved_bucket_tags_are_safe() {
    assert!(is_safe_log_tag("s.open"));
    assert!(is_safe_log_tag("pkg.ok"));
    assert!(is_safe_log_tag("wipe.ok"));
    assert!(is_safe_log_tag("integ.fail"));
}

#[test]
fn domain_words_rejected() {
    assert!(!is_safe_log_tag("shield-water"));
    assert!(!is_safe_log_tag("module.open"));
    assert!(!is_safe_log_tag("learn.step"));
    assert!(!is_safe_log_tag("user.profile.123"));
}

#[test]
fn very_long_tag_rejected() {
    assert!(!is_safe_log_tag(&"x".repeat(25)));
}

// ── Idempotency ──────────────────────────────────────────────────────────────

#[test]
fn wipe_idempotent_on_empty_slots() {
    let mut slots: Vec<CryptoKeySlot> = vec![];
    assert_eq!(overwrite_all_keys(&mut slots), 0);
}

#[test]
fn wipe_idempotent_called_twice() {
    let mut slots = vec![make_slot("k1", KeyStatus::Active)];
    overwrite_all_keys(&mut slots);
    let count = overwrite_all_keys(&mut slots);
    assert_eq!(count, 0);
}

// ── Security audit ────────────────────────────────────────────────────────────

#[test]
fn all_security_checks_pass() {
    let report = run_security_audit();
    let failures: Vec<_> = report.checks.iter().filter(|c| !c.passed).collect();
    for f in &failures {
        println!("FAILED: {} — {:?}", f.id, f.detail);
    }
    assert!(report.all_passed(), "security audit: {}", report.summary());
}

#[test]
fn no_telemetry_check_passes() {
    let report = run_security_audit();
    let check = report.checks.iter().find(|c| c.id == "no_telemetry_by_default").unwrap();
    assert!(check.passed);
}

#[test]
fn key_destruction_order_verified() {
    let report = run_security_audit();
    let check = report.checks.iter().find(|c| c.id == "key_destruction_precedes_file_deletion").unwrap();
    assert!(check.passed);
}

#[test]
fn facade_neutral_naming_verified() {
    let report = run_security_audit();
    let check = report.checks.iter().find(|c| c.id == "facade_table_names_are_neutral").unwrap();
    assert!(check.passed);
}

#[test]
fn quarantine_on_failure_verified() {
    let report = run_security_audit();
    let check = report.checks.iter().find(|c| c.id == "quarantine_on_any_verification_failure").unwrap();
    assert!(check.passed);
}

#[test]
fn security_summary_format() {
    let report = run_security_audit();
    assert!(report.summary().contains("checks passed"));
}

#[test]
fn security_summary_exact_text() {
    let report = run_security_audit();
    let n = report.checks.len();
    assert_eq!(report.summary(), format!("{n}/{n} security checks passed"));
}

#[test]
fn failures_by_category_returns_correct_subset() {
    let report = run_security_audit();
    for cat in &[SecurityCategory::Privacy, SecurityCategory::Cryptography, SecurityCategory::FacadeSafety] {
        let failures = report.failures_by_category(cat);
        assert!(failures.is_empty(), "unexpected failure in {:?}: {:?}", cat, failures);
    }
}

// ── Revocation ────────────────────────────────────────────────────────────────

#[test]
fn revocation_plan_lists_keys_and_packages() {
    let rev = RevocationPackage {
        signer_id: "root".to_string(),
        issued_at: 5,
        severity: RevocationSeverity::Critical,
        revoked_keys: vec![RevokedKey { signing_key_id: "k-old".to_string(), compromised_from: 1 }],
        revoked_package_hashes: vec!["h1".to_string(), "h2".to_string()],
        user_message_key: "msg.revoked".to_string(),
        replacement_hint: None,
    };
    let plan = plan_revocation(&rev);
    assert_eq!(plan.keys_to_revoke, vec!["k-old".to_string()]);
    assert_eq!(plan.packages_to_quarantine, vec!["h1".to_string(), "h2".to_string()]);
    assert!(plan.has_changes());
    assert!(plan.is_critical());
    assert_eq!(plan.user_message_key, "msg.revoked");
}

#[test]
fn empty_revocation_has_no_changes() {
    let rev = RevocationPackage {
        signer_id: "root".to_string(),
        issued_at: 5,
        severity: RevocationSeverity::Advisory,
        revoked_keys: vec![],
        revoked_package_hashes: vec![],
        user_message_key: "msg".to_string(),
        replacement_hint: None,
    };
    let plan = plan_revocation(&rev);
    assert!(!plan.has_changes());
    assert!(!plan.is_critical());
}

// ── Signatures ────────────────────────────────────────────────────────────────

fn anchor_for(key: &SigningKey, id: &str, status: TrustAnchorStatus) -> TrustAnchor {
    TrustAnchor {
        signing_key_id: id.to_string(),
        label: "anchor".to_string(),
        public_key_bytes: key.verifying_key().to_bytes().to_vec(),
        added_at: 0,
        status,
    }
}

#[test]
fn ed25519_valid_signature_accepted() {
    let key = SigningKey::from_bytes(&[7u8; 32]);
    let sig = key.sign(b"manifest");
    let v = Ed25519Verifier::new(vec![anchor_for(&key, "k1", TrustAnchorStatus::Trusted)]);
    assert!(v.verify_ed25519("k1", b"manifest", &sig.to_bytes()).is_ok());
}

#[test]
fn ed25519_tampered_message_rejected() {
    let key = SigningKey::from_bytes(&[7u8; 32]);
    let sig = key.sign(b"manifest");
    let v = Ed25519Verifier::new(vec![anchor_for(&key, "k1", TrustAnchorStatus::Trusted)]);
    let r = v.verify_ed25519("k1", b"manifesT", &sig.to_bytes());
    assert!(matches!(r, Err(CoreError::SignatureVerificationFailed)));
}

#[test]
fn ed25519_unknown_or_revoked_signer_rejected() {
    let key = SigningKey::from_bytes(&[9u8; 32]);
    let sig = key.sign(b"m");
    let v = Ed25519Verifier::new(vec![anchor_for(&key, "k1", TrustAnchorStatus::Revoked)]);
    assert!(v.verify_ed25519("k1", b"m", &sig.to_bytes()).is_err());
    assert!(v.verify_ed25519("k2", b"m", &sig.to_bytes()).is_err());
}

#[test]
fn ed25519_short_signature_rejected() {
    let key = SigningKey::from_bytes(&[7u8; 32]);
    let v = Ed25519Verifier::new(vec![anchor_for(&key, "k1", TrustAnchorStatus::Trusted)]);
    assert!(v.verify_ed25519("k1", b"m", &[0u8; 10]).is_err());
}

#[test]
fn trust_anchor_key_length_checked() {
    let a = TrustAnchor {
        signing_key_id: "k".to_string(),
        label: "l".to_string(),
        public_key_bytes: vec![1, 2, 3],
        added_at: 0,
        status: TrustAnchorStatus::Trusted,
    };
    assert!(a.verifying_key().is_err());
    let key = SigningKey::from_bytes(&[7u8; 32]);
    assert!(anchor_for(&key, "k", TrustAnchorStatus::Trusted).verifying_key().is_ok());
}

// ── Unlock slots ──────────────────────────────────────────────────────────────

fn small_params() -> Argon2Params {
    Argon2Params { m_cost: 8, t_cost: 1, p_cost: 1, output_len: 32 }
}

fn slot_for(sequence: &[u8], salt: &[u8]) -> UnlockSlot {
    let p = argon2::Params::new(8, 1, 1, Some(32)).unwrap();
    let kdf = argon2::Argon2::new(argon2::Algorithm::Argon2id, argon2::Version::V0x13, p);
    let mut out = vec![0u8; 32];
    kdf.hash_password_into(sequence, salt, &mut out).unwrap();
    UnlockSlot {
        unlock_slot_id: "main".to_string(),
        kdf_alg: KdfAlg::Argon2id,
        kdf_params_json: "{}".to_string(),
        salt: salt.to_vec(),
        verifier_hash: out,
        wrapped_key_id: None,
        failure_count: 0,
        created_at: 0,
        updated_at: 0,
    }
}

#[test]
fn unlock_sequence_matches_its_slot() {
    let slot = slot_for(b"1234", b"saltsalt");
    assert_eq!(verify_against_slot(&slot, &small_params(), b"1234").unwrap(), true);
    assert_eq!(verify_against_slot(&slot, &small_params(), b"4321").unwrap(), false);
}

#[test]
fn unlock_with_short_salt_is_crypto_error() {
    let mut slot = slot_for(b"1234", b"saltsalt");
    slot.salt = vec![1, 2, 3];
    let r = verify_against_slot(&slot, &small_params(), b"1234");
    assert!(matches!(r, Err(CoreError::Crypto(_))));
}

#[test]
fn duress_slot_absent_is_false() {
    let v = Argon2Verifier { slot: slot_for(b"1234", b"saltsalt"), duress_slot: None };
    assert_eq!(v.verify_duress_sequence(&small_params(), b"1234").unwrap(), false);
    assert_eq!(v.verify_unlock_sequence(&small_params(), b"1234").unwrap(), true);
}

#[test]
fn default_argon2_params() {
    let p = Argon2Params::default();
    assert_eq!((p.m_cost, p.t_cost, p.p_cost, p.output_len), (32 * 1024, 2, 1, 32));
}

#[test]
fn constant_time_eq_cases() {
    assert!(constant_time_eq(b"abc", b"abc"));
    assert!(!constant_time_eq(b"abc", b"abd"));
    assert!(!constant_time_eq(b"abc", b"ab"));
}
