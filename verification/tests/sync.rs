use sha2::{Digest, Sha256};

use taktakk::sync::chunk::{
    pending_chunk_indices, reassemble_chunks, split_into_chunks, verify_chunk, ChunkStatus,
    DEFAULT_CHUNK_SIZE,
};
use taktakk::sync::import::{
    has_nmp_extension, source_label_hash, DirEntryInfo, DirectoryScan, ImportStatus, ItemVerifyResult,
    ScanAction, ScanResult,
};
use taktakk::sync::inventory::LocalInventory;
use taktakk::sync::manifest::{build_transfer_plan, SyncAction};
use taktakk::sync::permission::{
    build_requests, required_permissions, user_safe_explanation_key, AppPermission, TriggerAction,
};
use taktakk::sync::transport::LocalFsTransport;

fn hex_sha(data: &[u8]) -> String {
    Sha256::digest(data).iter().map(|b| format!("{b:02x}")).collect()
}

fn inv(pkgs: &[(&str, &str, &str)]) -> LocalInventory {
    LocalInventory::build(
        pkgs.iter()
            .map(|(id, ver, hash)| (id.to_string(), ver.to_string(), hash.to_string()))
            .collect(),
    )
}

// ── LocalInventory ────────────────────────────────────────────────────────────

#[test]
fn inventory_missing_from_remote() {
    let local = inv(&[("pkg-a", "1.0.0", "aaa"), ("pkg-b", "1.0.0", "bbb")]);
    let remote = inv(&[("pkg-a", "1.0.0", "aaa"), ("pkg-c", "1.0.0", "ccc")]);
    let missing = local.missing_from_remote(&remote);
    assert_eq!(missing.len(), 1);
    assert_eq!(missing[0].package_id, "pkg-c");
}

#[test]
fn inventory_missing_from_local_is_mirror() {
    let local = inv(&[("pkg-a", "1.0.0", "aaa"), ("pkg-b", "1.0.0", "bbb")]);
    let remote = inv(&[("pkg-a", "1.0.0", "aaa"), ("pkg-c", "1.0.0", "ccc")]);
    let missing = local.missing_from_local(&remote);
    assert_eq!(missing.len(), 1);
    assert_eq!(missing[0].package_id, "pkg-b");
}

#[test]
fn inventory_in_sync_when_equal() {
    let a = inv(&[("pkg-a", "1.0.0", "aaa")]);
    let b = inv(&[("pkg-a", "1.0.0", "aaa")]);
    assert!(a.is_in_sync_with(&b));
}

#[test]
fn inventory_not_in_sync_when_different() {
    let a = inv(&[("pkg-a", "1.0.0", "aaa")]);
    let b = inv(&[("pkg-b", "1.0.0", "bbb")]);
    assert!(!a.is_in_sync_with(&b));
}

#[test]
fn inventory_in_sync_ignores_listing_order() {
    let a = inv(&[("pkg-a", "1.0.0", "aaa"), ("pkg-b", "1.0.0", "bbb")]);
    let b = inv(&[("pkg-b", "1.0.0", "bbb"), ("pkg-a", "1.0.0", "aaa")]);
    assert!(a.is_in_sync_with(&b));
    assert_eq!(a.snapshot_hash, b.snapshot_hash);
}

#[test]
fn inventory_empty_builds_ok() {
    let i = inv(&[]);
    assert!(i.items.is_empty());
}

#[test]
fn inventory_snapshot_hash_of_sorted_manifest_hashes() {
    let i = inv(&[("pkg-b", "1.0.0", "bbb"), ("pkg-a", "1.0.0", "aaa")]);
    assert_eq!(i.snapshot_hash, hex_sha(b"aaa|bbb"));
    assert!(i.items.iter().all(|it| it.locally_available));
    let empty = inv(&[]);
    assert_eq!(empty.snapshot_hash, hex_sha(b""));
}

// ── Manifest / transfer plan ──────────────────────────────────────────────────

#[test]
fn plan_receive_when_only_remote_has_package() {
    let local = inv(&[("pkg-a", "1.0.0", "aaa")]);
    let remote = inv(&[("pkg-a", "1.0.0", "aaa"), ("pkg-b", "1.0.0", "bbb")]);
    let plan = build_transfer_plan(&local, &remote);
    let receive: Vec<_> = plan.iter().filter(|i| i.action == SyncAction::Receive).collect();
    assert_eq!(receive.len(), 1);
    assert_eq!(receive[0].package_id, "pkg-b");
}

#[test]
fn plan_send_when_only_local_has_package() {
    let local = inv(&[("pkg-a", "1.0.0", "aaa"), ("pkg-b", "1.0.0", "bbb")]);
    let remote = inv(&[("pkg-a", "1.0.0", "aaa")]);
    let plan = build_transfer_plan(&local, &remote);
    let send: Vec<_> = plan.iter().filter(|i| i.action == SyncAction::Send).collect();
    assert_eq!(send.len(), 1);
    assert_eq!(send[0].package_id, "pkg-b");
}

#[test]
fn plan_skip_when_both_have_same_hash() {
    let a = inv(&[("pkg-a", "1.0.0", "aaa")]);
    let b = inv(&[("pkg-a", "1.0.0", "aaa")]);
    let plan = build_transfer_plan(&a, &b);
    assert!(plan.iter().all(|i| i.action == SyncAction::Skip));
}

#[test]
fn plan_verify_only_when_hash_differs() {
    let local = inv(&[("pkg-a", "1.0.0", "aaa")]);
    let remote = inv(&[("pkg-a", "1.0.0", "bbb")]);
    let plan = build_transfer_plan(&local, &remote);
    let verify: Vec<_> = plan.iter().filter(|i| i.action == SyncAction::VerifyOnly).collect();
    assert_eq!(verify.len(), 1);
}

#[test]
fn plan_receive_items_come_first() {
    let local = inv(&[("pkg-a", "1.0.0", "aaa")]);
    let remote = inv(&[("pkg-a", "1.0.0", "aaa"), ("pkg-b", "1.0.0", "bbb")]);
    let plan = build_transfer_plan(&local, &remote);
    let first_action = plan.first().map(|i| &i.action).unwrap();
    assert_eq!(*first_action, SyncAction::Receive);
}

#[test]
fn plan_covers_each_package_once_in_rank_order() {
    let local = inv(&[("a", "1", "h1"), ("b", "1", "h2"), ("c", "1", "h3")]);
    let remote = inv(&[("c", "1", "h3x"), ("d", "1", "h4"), ("a", "1", "h1")]);
    let plan = build_transfer_plan(&local, &remote);
    let got: Vec<(String, SyncAction)> = plan.iter().map(|i| (i.package_id.clone(), i.action)).collect();
    assert_eq!(
        got,
        vec![
            ("d".to_string(), SyncAction::Receive),
            ("b".to_string(), SyncAction::Send),
            ("c".to_string(), SyncAction::VerifyOnly),
            ("a".to_string(), SyncAction::Skip),
        ]
    );
    let c = &plan[2];
    assert_eq!(c.local_manifest_hash.as_deref(), Some("h3"));
    assert_eq!(c.remote_manifest_hash.as_deref(), Some("h3x"));
    let d = &plan[0];
    assert_eq!(d.local_manifest_hash, None);
}

#[test]
fn plan_of_empty_inventories_is_empty() {
    assert!(build_transfer_plan(&inv(&[]), &inv(&[])).is_empty());
}

// ── Chunk transfer ────────────────────────────────────────────────────────────

#[test]
fn split_and_reassemble_small_object() {
    let data = b"hello taktakk sync chunk model";
    let obj_hash = hex_sha(data);
    let chunks = split_into_chunks("tx-1", &obj_hash, data, DEFAULT_CHUNK_SIZE, 0);
    assert_eq!(chunks.len(), 1);
    let chunk_data: Vec<(u32, Vec<u8>)> = vec![(0, data.to_vec())];
    let reassembled = reassemble_chunks(&chunk_data, &chunks).unwrap();
    assert_eq!(reassembled, data);
}

#[test]
fn split_multi_chunk_object() {
    let data: Vec<u8> = (0u8..=255u8).cycle().take(3 * 1024).collect();
    let obj_hash = hex_sha(&data);
    let chunks = split_into_chunks("tx-2", &obj_hash, &data, 1024, 0);
    assert_eq!(chunks.len(), 3);
}

#[test]
fn split_records_exact_chunk_metadata() {
    let data: Vec<u8> = (0u8..10).collect();
    let chunks = split_into_chunks("tx", "obj", &data, 4, 42);
    assert_eq!(chunks.len(), 3);
    assert_eq!(chunks[2].byte_size, 2);
    assert_eq!(chunks[1].chunk_index, 1);
    assert_eq!(chunks[1].chunk_hash, hex_sha(&data[4..8]));
    assert_eq!(chunks[0].status, ChunkStatus::Pending);
    assert_eq!(chunks[0].updated_at, 42);
    assert_eq!(chunks[0].transfer_id, "tx");
    assert_eq!(chunks[0].object_hash, "obj");
}

#[test]
fn split_empty_object_has_no_chunks() {
    assert!(split_into_chunks("tx", "obj", &[], 4, 0).is_empty());
}

#[test]
fn verify_chunk_correct_hash() {
    let data = b"chunk data";
    let real_hash = hex_sha(data);
    assert!(verify_chunk(data, &real_hash));
}

#[test]
fn verify_chunk_wrong_hash_fails() {
    assert!(!verify_chunk(b"data", "deadbeef"));
}

#[test]
fn reassemble_tampered_chunk_fails() {
    let data = b"original data";
    let obj_hash = hex_sha(data);
    let chunks = split_into_chunks("tx-3", &obj_hash, data, 64, 0);
    let tampered: Vec<(u32, Vec<u8>)> = vec![(0, b"tampered data".to_vec())];
    assert!(reassemble_chunks(&tampered, &chunks).is_err());
}

#[test]
fn reassemble_sorts_pieces_and_reports_unknown_index() {
    let data: Vec<u8> = (0u8..10).collect();
    let chunks = split_into_chunks("tx", "obj", &data, 4, 0);
    let pieces: Vec<(u32, Vec<u8>)> =
        vec![(2, data[8..].to_vec()), (0, data[..4].to_vec()), (1, data[4..8].to_vec())];
    assert_eq!(reassemble_chunks(&pieces, &chunks).unwrap(), data);
    let unknown: Vec<(u32, Vec<u8>)> = vec![(0, data[..4].to_vec()), (7, vec![1])];
    assert_eq!(reassemble_chunks(&unknown, &chunks), Err(7));
}

#[test]
fn pending_chunks_returned_correctly() {
    let data = (0u8..128).collect::<Vec<_>>();
    let hash = hex_sha(&data);
    let mut chunks = split_into_chunks("tx-4", &hash, &data, 64, 0);
    chunks[0].status = ChunkStatus::Verified;
    let pending = pending_chunk_indices(&chunks);
    assert_eq!(pending, vec![1]);
}

#[test]
fn failed_chunks_are_pending_again() {
    let data = (0u8..128).collect::<Vec<_>>();
    let mut chunks = split_into_chunks("tx", "h", &data, 32, 0);
    chunks[0].status = ChunkStatus::Failed;
    chunks[1].status = ChunkStatus::Received;
    chunks[2].status = ChunkStatus::Verified;
    assert_eq!(pending_chunk_indices(&chunks), vec![0, 3]);
}

// ── Physical media import ─────────────────────────────────────────────────────

fn file(path: &str, name: &str) -> DirEntryInfo {
    DirEntryInfo { path: path.to_string(), file_name: name.to_string(), is_dir: false }
}

fn dir(path: &str, name: &str) -> DirEntryInfo {
    DirEntryInfo { path: path.to_string(), file_name: name.to_string(), is_dir: true }
}

#[test]
fn scan_directory_finds_nmp_files() {
    let (mut scan, first) = DirectoryScan::start("/scan".to_string(), 3);
    assert!(matches!(first, ScanAction::ReadDir { ref path } if path == "/scan"));
    let next = scan.listed(vec![file("/scan/test.nmp", "test.nmp"), file("/scan/other.txt", "other.txt")]);
    assert!(matches!(next, ScanAction::InspectFile { ref path } if path == "/scan/test.nmp"));
    let done = scan.inspected(9, b"TAKT");
    assert!(matches!(done, ScanAction::Done));
    let result = scan.into_result();
    assert_eq!(result.found.len(), 1);
    assert!(result.found[0].looks_valid);
    assert_eq!(result.found[0].byte_size, 9);
}

#[test]
fn scan_directory_detects_invalid_magic() {
    let (mut scan, _) = DirectoryScan::start("/scan-bad".to_string(), 2);
    scan.listed(vec![file("/scan-bad/bad.nmp", "bad.nmp")]);
    let done = scan.inspected(6, b"JPEG");
    assert!(matches!(done, ScanAction::Done));
    let result = scan.into_result();
    assert_eq!(result.found.len(), 1);
    assert!(!result.found[0].looks_valid);
}

#[test]
fn scan_directory_recursive() {
    let (mut scan, _) = DirectoryScan::start("/r".to_string(), 5);
    let a = scan.listed(vec![dir("/r/sub", "sub")]);
    assert!(matches!(a, ScanAction::ReadDir { ref path } if path == "/r/sub"));
    let b = scan.listed(vec![file("/r/sub/deep.nmp", "deep.nmp")]);
    assert!(matches!(b, ScanAction::InspectFile { .. }));
    let c = scan.inspected(9, b"TAKT");
    assert!(matches!(c, ScanAction::Done));
    assert_eq!(scan.into_result().found.len(), 1);
}

#[test]
fn scan_empty_directory_returns_empty() {
    let (mut scan, _) = DirectoryScan::start("/empty".to_string(), 3);
    let done = scan.listed(vec![]);
    assert!(matches!(done, ScanAction::Done));
    let result = scan.into_result();
    assert!(result.found.is_empty());
    assert_eq!(result.scan_error_count, 0);
}

#[test]
fn scan_stops_at_max_depth_and_counts_unreadable() {
    let (mut scan, _) = DirectoryScan::start("/d".to_string(), 1);
    let a = scan.listed(vec![dir("/d/one", "one"), dir("/d/locked", "locked")]);
    assert!(matches!(a, ScanAction::ReadDir { ref path } if path == "/d/one"));
    // Depth 1 is the limit: "/d/one/two" is never listed.
    let b = scan.listed(vec![dir("/d/one/two", "two"), file("/d/one/x.nmp", "x.nmp")]);
    assert!(matches!(b, ScanAction::InspectFile { ref path } if path == "/d/one/x.nmp"));
    let c = scan.inspected(0, b"");
    assert!(matches!(c, ScanAction::ReadDir { ref path } if path == "/d/locked"));
    let d = scan.unreadable();
    assert!(matches!(d, ScanAction::Done));
    let r = scan.into_result();
    assert_eq!(r.found.len(), 1);
    assert!(!r.found[0].looks_valid);
    assert_eq!(r.scan_error_count, 1);
}

#[test]
fn nmp_extension_rules() {
    assert!(has_nmp_extension("a.nmp"));
    assert!(has_nmp_extension("pkg.v2.nmp"));
    assert!(!has_nmp_extension(".nmp"));
    assert!(!has_nmp_extension("a.nmpx"));
    assert!(!has_nmp_extension("a.NMP"));
    let r = ScanResult::default();
    assert!(r.found.is_empty());
}

#[test]
fn source_label_hash_does_not_expose_path() {
    let h = source_label_hash("/storage/sdcard0/secret/taktakk.nmp");
    assert!(!h.contains("storage"));
    assert!(!h.contains("secret"));
    assert_eq!(h.len(), 64);
}

#[test]
fn source_label_hash_is_deterministic() {
    let path = "/mnt/usb/pkg.nmp";
    assert_eq!(source_label_hash(path), source_label_hash(path));
    assert_eq!(source_label_hash(path), hex_sha(path.as_bytes()));
}

#[test]
fn import_status_values_compare() {
    assert_ne!(ImportStatus::Scanning, ImportStatus::Installed);
    assert_eq!(ItemVerifyResult::Duplicate, ItemVerifyResult::Duplicate);
}

// ── Permission timing ─────────────────────────────────────────────────────────

#[test]
fn share_menu_requires_bluetooth_and_network() {
    let perms = required_permissions(&TriggerAction::OpenShareMenu);
    assert!(perms.contains(&AppPermission::BluetoothNearbyDevices));
    assert!(perms.contains(&AppPermission::LocalNetwork));
}

#[test]
fn import_requires_storage() {
    let perms = required_permissions(&TriggerAction::OpenImportFromStorage);
    assert_eq!(perms, vec![AppPermission::ExternalStorageRead]);
}

#[test]
fn audio_requires_only_audio_permission() {
    let perms = required_permissions(&TriggerAction::PlayAudio);
    assert_eq!(perms, vec![AppPermission::AudioPlayback]);
}

#[test]
fn qr_scanner_requires_camera() {
    assert_eq!(required_permissions(&TriggerAction::OpenQrScanner), vec![AppPermission::Camera]);
}

#[test]
fn permission_requests_are_unlocked_shell_only() {
    let requests = build_requests(&TriggerAction::OpenShareMenu);
    assert!(requests.iter().all(|r| r.unlocked_only));
}

#[test]
fn permission_requests_carry_keys_in_order() {
    let requests = build_requests(&TriggerAction::OpenShareMenu);
    assert_eq!(requests.len(), 2);
    assert_eq!(requests[0].permission, AppPermission::BluetoothNearbyDevices);
    assert_eq!(requests[0].explanation_key, "perm.bluetooth.reason");
    assert_eq!(requests[1].explanation_key, "perm.network.reason");
}

#[test]
fn explanation_keys_do_not_contain_taktakk() {
    for perm in &[
        AppPermission::BluetoothNearbyDevices,
        AppPermission::LocalNetwork,
        AppPermission::ExternalStorageRead,
        AppPermission::AudioPlayback,
        AppPermission::Camera,
    ] {
        let key = user_safe_explanation_key(perm);
        assert!(!key.to_lowercase().contains("taktakk"), "explanation key should not mention taktakk: {key}");
        assert!(!key.to_lowercase().contains("learn"), "explanation key should not mention learning: {key}");
    }
}

// ── Local transport layout ────────────────────────────────────────────────────

#[test]
fn local_transport_sides_and_paths() {
    let ta = LocalFsTransport::new("/tmp/x".to_string(), "a");
    let tb = LocalFsTransport::new("/tmp/x/".to_string(), "b");
    assert_eq!(ta.name(), "local-fs");
    assert_eq!(ta.own_inventory_file(), "a_inventory.json");
    assert_eq!(ta.peer_inventory_file(), "b_inventory.json");
    assert_eq!(tb.peer_inventory_file(), "a_inventory.json");
    assert_eq!(ta.inventory_path("b"), "/tmp/x/b_inventory.json");
    assert_eq!(tb.object_path("abc"), "/tmp/x/objects/abc");
    assert_eq!(ta.staging_dir(), "/tmp/x");
}

#[test]
fn peer_plans_mirror_each_other() {
    let a = inv(&[("x", "1", "h1"), ("y", "1", "h2"), ("z", "1", "h3")]);
    let b = inv(&[("y", "1", "h2"), ("z", "1", "h9"), ("w", "1", "h4")]);
    let pa = build_transfer_plan(&a, &b);
    let pb = build_transfer_plan(&b, &a);
    assert_eq!(pa.len(), pb.len());
    for item in &pa {
        let peer = pb.iter().find(|p| p.package_id == item.package_id).unwrap();
        let expected = match item.action {
            SyncAction::Send => SyncAction::Receive,
            SyncAction::Receive => SyncAction::Send,
            other => other,
        };
        assert_eq!(peer.action, expected);
        assert_eq!(peer.local_manifest_hash, item.remote_manifest_hash);
    }
}
