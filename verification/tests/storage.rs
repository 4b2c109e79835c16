use sha2::{Digest, Sha256};

use taktakk::domain::{
    check_magic, CoreError, EventBucket, LessonProgressStatus, ModuleStatus, PackageStatus, SyncStatus,
    TransportKind, WipeScope,
};
use taktakk::storage::codec::{
    alarm_from_columns, alarm_to_columns, lesson_progress_from_row, module_status_str, package_status_str,
    parse_module_status, parse_status, parse_sync_status, parse_transport, row_to_module, row_to_package,
    sync_session_from_row, sync_status_str, transport_str, AlarmRow,
};
use taktakk::storage::event_log::{log_event_record, SafeEventDetail, EVENT_RETENTION_SECONDS};
use taktakk::storage::failure_injection::{
    generate_corrupt_package, is_partial_file, partial_contents, partial_file_name, FailureClass, WriteLimiter,
};
use taktakk::storage::maintenance::{
    is_object_prefix_dir, is_orphan, object_matches, quarantine_cutoff_secs, spot_check_sample, MaintenanceReport,
    SpotCheckTally, QUARANTINE_EXPIRY_SECONDS,
};
use taktakk::storage::object_store::{check_object, object_hash, object_path_parts, FsObjectStore};
use taktakk::storage::wipe::{
    core_table_name, key_shred_writes, log_retention_cutoff, slot_noise, validate_event_tag, wipe_plan,
    CoreTable, FacadeTable, ShredWrite, WipeStep, KEY_OVERWRITE_PASSES,
};

fn hex_sha(data: &[u8]) -> String {
    Sha256::digest(data).iter().map(|b| format!("{b:02x}")).collect()
}

// ── Failure injection ─────────────────────────────────────────────────────────

#[test]
fn generate_corrupt_empty_is_empty() {
    assert!(generate_corrupt_package(&FailureClass::EmptyFile).is_empty());
}

#[test]
fn generate_corrupt_bad_magic_not_nmp() {
    let data = generate_corrupt_package(&FailureClass::CorruptMagic);
    assert!(!check_magic(&data));
}

#[test]
fn corrupt_packages_exact_bytes() {
    assert_eq!(generate_corrupt_package(&FailureClass::CorruptMagic), b"JPEG\xff\xd8\xff\xe0".to_vec());
    let mut t = b"TAKT".to_vec();
    t.push(1);
    t.extend_from_slice(&5u32.to_be_bytes());
    t.extend_from_slice(b"TRUNC");
    assert_eq!(generate_corrupt_package(&FailureClass::TruncatedManifest), t);

    let mut z = b"TAKT".to_vec();
    z.push(1);
    z.extend_from_slice(&2u32.to_be_bytes());
    z.extend_from_slice(b"{}");
    z.extend_from_slice(&64u32.to_be_bytes());
    z.extend_from_slice(&[0u8; 64]);
    z.extend_from_slice(&0u32.to_be_bytes());
    assert_eq!(generate_corrupt_package(&FailureClass::ZeroedSignature), z);

    let mut v = b"TAKT".to_vec();
    v.push(1);
    let manifest = b"{\"module_id\":\"x\"}";
    v.extend_from_slice(&(manifest.len() as u32).to_be_bytes());
    v.extend_from_slice(manifest);
    v.extend_from_slice(&64u32.to_be_bytes());
    v.extend_from_slice(&[0xABu8; 64]);
    v.extend_from_slice(&1u32.to_be_bytes());
    let obj = b"tampered_data";
    v.extend_from_slice(&(obj.len() as u32).to_be_bytes());
    v.extend_from_slice(obj);
    let len = v.len();
    v[len - 1] ^= 0xFF;
    v[len - 2] ^= 0xFF;
    assert_eq!(generate_corrupt_package(&FailureClass::TamperedObject), v);

    let noise: Vec<u8> = (0u8..=127u8).cycle().take(256).collect();
    assert_eq!(generate_corrupt_package(&FailureClass::RandomNoise), noise);
}

#[test]
fn structural_failures_keep_the_magic() {
    assert!(check_magic(&generate_corrupt_package(&FailureClass::TruncatedManifest)));
    assert!(check_magic(&generate_corrupt_package(&FailureClass::ZeroedSignature)));
    assert!(check_magic(&generate_corrupt_package(&FailureClass::TamperedObject)));
    assert!(!check_magic(&generate_corrupt_package(&FailureClass::RandomNoise)));
}

#[test]
fn write_limiter_fails_after_n_writes() {
    let mut limiter = WriteLimiter::new(2);
    assert!(limiter.attempt());
    assert!(limiter.attempt());
    assert!(!limiter.attempt());
    assert_eq!(limiter.writes_completed(), 3);
    assert_eq!(limiter.failure_message(), "simulated write failure after 2 writes");
}

#[test]
fn write_limiter_zero_budget_refuses_first_write() {
    let mut limiter = WriteLimiter::new(0);
    assert!(!limiter.attempt());
    assert_eq!(limiter.writes_completed(), 1);
}

#[test]
fn partial_write_leaves_hash_named_prefix() {
    let data = b"full object data";
    assert_eq!(partial_file_name(data), format!("{}.partial", hex_sha(data)));
    assert_eq!(partial_contents(data, 5), b"full ");
    assert_eq!(partial_contents(data, 500), data);
    assert!(is_partial_file("abc.partial"));
    assert!(!is_partial_file(".partial"));
    assert!(!is_partial_file("abc.partial.tmp"));
}

// ── Maintenance ───────────────────────────────────────────────────────────────

#[test]
fn maintenance_report_is_clean_on_fresh_db() {
    let report = MaintenanceReport::default();
    assert!(report.is_clean());
    assert_eq!(report.objects_corrupt_found, 0);
}

#[test]
fn maintenance_report_with_corruption_is_not_clean() {
    let mut report = MaintenanceReport::default();
    report.objects_corrupt_found = 1;
    assert!(!report.is_clean());
}

#[test]
fn gc_orphan_decision() {
    let referenced = vec![hex_sha(b"referenced")];
    let h1 = hex_sha(b"referenced");
    let h2 = hex_sha(b"orphan");
    assert!(!is_orphan(&h1[..2], &h1[2..], &referenced));
    assert!(is_orphan(&h2[..2], &h2[2..], &referenced));
    assert!(!is_object_prefix_dir("quarantine"));
    assert!(is_object_prefix_dir("ab"));
}

#[test]
fn spot_check_sample_selection() {
    assert_eq!(spot_check_sample(3, 10), vec![0, 1, 2]);
    assert_eq!(spot_check_sample(10, 3), vec![0, 4, 8]);
    assert_eq!(spot_check_sample(7, 2), vec![0, 4]);
    assert_eq!(spot_check_sample(0, 0), Vec::<usize>::new());
}

#[test]
fn spot_check_all_valid_returns_no_corrupt() {
    let h = hex_sha(b"valid object");
    let mut tally = SpotCheckTally::new();
    assert!(!tally.record(&h, Some(b"valid object")));
    assert_eq!((tally.verified, tally.corrupt), (1, 0));
    assert!(tally.record(&h, Some(b"changed")));
    assert!(!tally.record(&h, None));
    assert_eq!((tally.verified, tally.corrupt), (1, 1));
    assert!(object_matches(&h, b"valid object"));
}

#[test]
fn quarantine_cutoff_is_clamped_at_epoch() {
    assert_eq!(quarantine_cutoff_secs(1_000, 100), 900);
    assert_eq!(quarantine_cutoff_secs(100, QUARANTINE_EXPIRY_SECONDS), 0);
    assert_eq!(QUARANTINE_EXPIRY_SECONDS, 30 * 24 * 3600);
}

// ── Object store ──────────────────────────────────────────────────────────────

#[test]
fn put_is_deterministic() {
    assert_eq!(object_hash(b"same"), object_hash(b"same"));
    assert_eq!(object_hash(b"same"), hex_sha(b"same"));
}

#[test]
fn object_layout_paths() {
    let store = FsObjectStore::new("/data/objs".to_string());
    let h = hex_sha(b"x");
    assert_eq!(store.object_path(&h), format!("/data/objs/{}/{}", &h[..2], &h[2..]));
    assert_eq!(store.quarantine_path(&h), format!("/data/objs/quarantine/{h}"));
    assert_eq!(object_path_parts("abcdef"), ("ab", "cdef"));
    assert_eq!(store.base(), "/data/objs");
}

#[test]
fn read_check_rejects_changed_object() {
    let h = hex_sha(b"payload");
    assert!(check_object(&h, b"payload").is_ok());
    match check_object(&h, b"payl0ad") {
        Err(CoreError::HashMismatch { hash }) => assert_eq!(hash, h),
        other => panic!("unexpected: {other:?}"),
    }
}

// ── Event log ─────────────────────────────────────────────────────────────────

#[test]
fn event_detail_json_rendering() {
    assert_eq!(SafeEventDetail::default().to_json(), "{}");
    let d = SafeEventDetail { error_code: Some(3), object_count: None, elapsed_ms: Some(12) };
    assert_eq!(d.to_json(), "{\"err\":3,\"ms\":12}");
    let all = SafeEventDetail { error_code: Some(0), object_count: Some(4294967295), elapsed_ms: Some(7) };
    assert_eq!(all.to_json(), "{\"err\":0,\"n\":4294967295,\"ms\":7}");
}

#[test]
fn event_record_has_tag_and_retention() {
    let r = log_event_record(EventBucket::PackageOk, Some(SafeEventDetail { error_code: None, object_count: Some(2), elapsed_ms: None }), 1000);
    assert_eq!(r.event_tag, "pkg.ok");
    assert_eq!(r.ts, 1000);
    assert_eq!(r.retention_until, 1000 + EVENT_RETENTION_SECONDS);
    assert_eq!(r.detail_json.as_deref(), Some("{\"n\":2}"));
    assert_eq!(r.event_id.len(), 36);
    assert_eq!(&r.event_id[14..15], "4");
    let bare = log_event_record(EventBucket::SessionOpen, None, 0);
    assert!(bare.detail_json.is_none());
    assert_ne!(bare.event_id, r.event_id);
}

#[test]
fn retention_deadline_selects_old_events() {
    let records: Vec<_> = [1000i64, 5000, 9000]
        .iter()
        .map(|ts| log_event_record(EventBucket::SessionOpen, None, *ts))
        .collect();
    let purged = records.iter().filter(|r| r.retention_until < 91_401).count();
    assert_eq!(purged, 2);
    assert_eq!(log_retention_cutoff(91_401, 86_400), 5_001);
}

#[test]
fn validate_event_tag_allows_approved_buckets() {
    assert!(validate_event_tag("s.open"));
    assert!(validate_event_tag("pkg.ok"));
    assert!(validate_event_tag("wipe.ok"));
}

#[test]
fn validate_event_tag_rejects_domain_words() {
    assert!(!validate_event_tag("module.open"));
    assert!(!validate_event_tag("learn.shield"));
    assert!(!validate_event_tag("user.profile"));
}

// ── Wipe plans ────────────────────────────────────────────────────────────────

#[test]
fn state_wipe_plan_removes_progress_only() {
    let plan = wipe_plan(WipeScope::State);
    let names: Vec<&str> = plan
        .iter()
        .map(|s| match s {
            WipeStep::ClearCore(t) => core_table_name(*t),
            _ => "other",
        })
        .collect();
    assert_eq!(names, vec!["event_log", "exercise_attempts", "learning_sessions", "lesson_progress", "resume_state"]);
}

#[test]
fn hard_wipe_destroys_keys_first() {
    let plan = wipe_plan(WipeScope::Hard);
    assert_eq!(plan[0], WipeStep::DestroyKeySlots);
    assert_eq!(plan.len(), 17);
    assert_eq!(*plan.last().unwrap(), WipeStep::ClearCore(CoreTable::ImportJobs));
    assert!(plan.contains(&WipeStep::ClearCore(CoreTable::SyncSessions)));
    assert!(plan.contains(&WipeStep::ClearCore(CoreTable::LocalProfiles)));
    assert!(plan.contains(&WipeStep::ClearCore(CoreTable::Modules)));
}

#[test]
fn hard_wipe_clears_every_core_table() {
    let plan = wipe_plan(WipeScope::Hard);
    let all = [
        CoreTable::EventLog,
        CoreTable::ExerciseAttempts,
        CoreTable::LearningSessions,
        CoreTable::LessonProgress,
        CoreTable::ResumeState,
        CoreTable::IntegrityChecks,
        CoreTable::PackageObjects,
        CoreTable::ContentObjects,
        CoreTable::LessonSteps,
        CoreTable::Lessons,
        CoreTable::Modules,
        CoreTable::ContentPackages,
        CoreTable::TrustAnchors,
        CoreTable::LocalProfiles,
        CoreTable::SyncSessions,
        CoreTable::ImportJobs,
    ];
    for t in all {
        assert!(plan.contains(&WipeStep::ClearCore(t)));
    }
    assert!(!plan.iter().any(|s| matches!(s, WipeStep::ClearFacade(_))));
}

#[test]
fn factory_reset_extends_hard_wipe() {
    let hard = wipe_plan(WipeScope::Hard);
    let factory = wipe_plan(WipeScope::Factory);
    assert_eq!(&factory[..hard.len()], &hard[..]);
    assert_eq!(
        &factory[hard.len()..],
        &[
            WipeStep::ClearFacade(FacadeTable::AlarmEntries),
            WipeStep::ClearFacade(FacadeTable::SlotConfig),
            WipeStep::ClearFacade(FacadeTable::KeyRegistry),
            WipeStep::ResetClockSettings,
        ]
    );
    assert_eq!(wipe_plan(WipeScope::KeysOnly), vec![WipeStep::DestroyKeySlots]);
}

#[test]
fn key_shredding_writes() {
    let keys = vec!["k1".to_string(), "k2".to_string()];
    let slots = vec!["s1".to_string()];
    let writes = key_shred_writes(&keys, &slots);
    assert_eq!(writes.len(), KEY_OVERWRITE_PASSES * 2 + 1);
    for (i, w) in writes.iter().enumerate().take(KEY_OVERWRITE_PASSES * 2) {
        match w {
            ShredWrite::OverwriteKey { key_id, noise } => {
                assert_eq!(key_id, &keys[i / KEY_OVERWRITE_PASSES]);
                assert_eq!(noise.len(), 64);
            },
            _ => panic!("key overwrite expected"),
        }
    }
    match writes.last().unwrap() {
        ShredWrite::OverwriteSlot { slot_id, verifier, salt } => {
            assert_eq!(slot_id, "s1");
            assert_eq!(verifier.len(), 64);
            assert_eq!(&verifier[..32], &salt[..]);
        },
        _ => panic!("slot overwrite expected"),
    }
    let (v, s) = slot_noise();
    assert_eq!(&v[..32], &s[..]);
}

// ── Stored codes and rows ─────────────────────────────────────────────────────

#[test]
fn status_codes_round_trip() {
    for s in [
        PackageStatus::Pending,
        PackageStatus::Installed,
        PackageStatus::Incomplete,
        PackageStatus::Quarantined,
        PackageStatus::Disabled,
    ] {
        assert_eq!(parse_status(package_status_str(&s)), s);
    }
    for s in [ModuleStatus::Available, ModuleStatus::Partial, ModuleStatus::Quarantined, ModuleStatus::Disabled] {
        assert_eq!(parse_module_status(module_status_str(&s)), s);
    }
    for t in [
        TransportKind::Bluetooth,
        TransportKind::WifiDirect,
        TransportKind::LocalNetwork,
        TransportKind::QrBootstrap,
        TransportKind::SdCard,
        TransportKind::UsbOtg,
        TransportKind::LocalFile,
    ] {
        assert_eq!(parse_transport(transport_str(&t)), t);
    }
    for s in [
        SyncStatus::Negotiating,
        SyncStatus::Transferring,
        SyncStatus::Verifying,
        SyncStatus::Completed,
        SyncStatus::Failed,
        SyncStatus::Aborted,
    ] {
        assert_eq!(parse_sync_status(sync_status_str(&s)), s);
    }
}

#[test]
fn unknown_codes_fall_back() {
    assert_eq!(parse_status("weird"), PackageStatus::Pending);
    assert_eq!(parse_module_status("weird"), ModuleStatus::Disabled);
    assert_eq!(parse_transport("carrier-pigeon"), TransportKind::LocalFile);
    assert_eq!(parse_sync_status(""), SyncStatus::Aborted);
    assert_eq!(transport_str(&TransportKind::QrBootstrap), "qr");
}

#[test]
fn package_row_decodes_quarantined() {
    let row = (
        "pkg-1".to_string(),
        "mod-1".to_string(),
        1i64,
        2i64,
        70_000i64,
        "h".to_string(),
        "quarantined".to_string(),
        Some(5i64),
        Some("bad hash".to_string()),
    );
    let p = row_to_package(row);
    assert_eq!(p.status, PackageStatus::Quarantined);
    assert_eq!((p.version.major, p.version.minor, p.version.patch), (1, 2, 70_000u32 as u16));
    assert_eq!(p.quarantine_reason.as_deref(), Some("bad hash"));
}

#[test]
fn module_and_progress_rows_decode() {
    let m = row_to_module((
        "m".to_string(),
        "shield-x".to_string(),
        "t".to_string(),
        "d".to_string(),
        1,
        0,
        0,
        "partial".to_string(),
        Some(15),
    ));
    assert_eq!(m.status, ModuleStatus::Partial);
    assert_eq!(m.estimated_minutes, Some(15));
    let p = lesson_progress_from_row(("p".to_string(), "l".to_string(), "in_progress".to_string(), 2, 5, 10, None));
    assert_eq!(p.status, LessonProgressStatus::InProgress);
    assert_eq!((p.steps_completed, p.steps_total), (2, 5));
    let s = sync_session_from_row((
        "s".to_string(),
        "wifi_direct".to_string(),
        "peer".to_string(),
        1,
        Some(2),
        "completed".to_string(),
        3,
        4,
    ));
    assert_eq!(s.transport, TransportKind::WifiDirect);
    assert_eq!(s.status, SyncStatus::Completed);
    assert_eq!((s.objects_received, s.objects_sent), (3, 4));
}

#[test]
fn alarm_columns_round_trip() {
    let a = AlarmRow {
        alarm_id: "a1".to_string(),
        hour: 7,
        minute: 30,
        label: Some("wake".to_string()),
        enabled: true,
        repeat_days: 0b0011111,
    };
    let cols = alarm_to_columns(&a);
    assert_eq!(cols.4, 1);
    let back = alarm_from_columns(cols);
    assert_eq!(back.hour, 7);
    assert_eq!(back.minute, 30);
    assert_eq!(back.label.as_deref(), Some("wake"));
    assert!(back.enabled);
    assert_eq!(back.repeat_days, 0b0011111);
}
