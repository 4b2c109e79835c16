//! The text codes stored for each status enum, and the decoding of stored rows
//! into domain records.
//!
//! Every status is stored as a short neutral word. Decoding is total: an
//! unknown word decodes to a fixed fallback variant, and decoding the code of
//! a status always gives that status back.

use vstd::prelude::*;

use crate::domain::{
    ContentPackage, Lesson, LessonProgress, LessonProgressStatus, Module, ModuleStatus, ModuleVersion,
    PackageStatus, ResumeState, SyncSession, SyncStatus, TransportKind,
};
use crate::text::str_eq;

verus! {

// ── Package status ────────────────────────────────────────────────────────────

/// The stored code of a package status.
pub open spec fn package_status_text(s: PackageStatus) -> Seq<char> {
    match s {
        PackageStatus::Pending => "pending"@,
        PackageStatus::Installed => "installed"@,
        PackageStatus::Incomplete => "incomplete"@,
        PackageStatus::Quarantined => "quarantined"@,
        PackageStatus::Disabled => "disabled"@,
    }
}

/// The package status a stored code stands for (`Pending` for any other text).
pub open spec fn package_status_from_text(t: Seq<char>) -> PackageStatus {
    if t == "installed"@ {
        PackageStatus::Installed
    } else if t == "incomplete"@ {
        PackageStatus::Incomplete
    } else if t == "quarantined"@ {
        PackageStatus::Quarantined
    } else if t == "disabled"@ {
        PackageStatus::Disabled
    } else {
        PackageStatus::Pending
    }
}

/// The stored code of a package status.
pub fn package_status_str(s: &PackageStatus) -> (r: &'static str)
    ensures
        r@ == package_status_text(*s),
{
    match s {
        PackageStatus::Pending => "pending",
        PackageStatus::Installed => "installed",
        PackageStatus::Incomplete => "incomplete",
        PackageStatus::Quarantined => "quarantined",
        PackageStatus::Disabled => "disabled",
    }
}

/// Decode a stored package status.
pub fn parse_status(t: &str) -> (r: PackageStatus)
    ensures
        r == package_status_from_text(t@),
{
    if str_eq(t, "installed") {
        PackageStatus::Installed
    } else if str_eq(t, "incomplete") {
        PackageStatus::Incomplete
    } else if str_eq(t, "quarantined") {
        PackageStatus::Quarantined
    } else if str_eq(t, "disabled") {
        PackageStatus::Disabled
    } else {
        PackageStatus::Pending
    }
}

/// Decoding the stored code of a package status gives the status back.
pub proof fn lemma_package_status_round_trip(s: PackageStatus)
    ensures
        package_status_from_text(package_status_text(s)) == s,
{
    reveal_strlit("pending");
    reveal_strlit("installed");
    reveal_strlit("incomplete");
    reveal_strlit("quarantined");
    reveal_strlit("disabled");
    assert("pending"@.len() == 7);
    assert("installed"@.len() == 9);
    assert("incomplete"@.len() == 10);
    assert("quarantined"@.len() == 11);
    assert("disabled"@.len() == 8);
}

// ── Module status ─────────────────────────────────────────────────────────────

/// The stored code of a module status.
pub open spec fn module_status_text(s: ModuleStatus) -> Seq<char> {
    match s {
        ModuleStatus::Available => "available"@,
        ModuleStatus::Partial => "partial"@,
        ModuleStatus::Quarantined => "quarantined"@,
        ModuleStatus::Disabled => "disabled"@,
    }
}

/// The module status a stored code stands for (`Disabled` for any other text).
pub open spec fn module_status_from_text(t: Seq<char>) -> ModuleStatus {
    if t == "available"@ {
        ModuleStatus::Available
    } else if t == "partial"@ {
        ModuleStatus::Partial
    } else if t == "quarantined"@ {
        ModuleStatus::Quarantined
    } else {
        ModuleStatus::Disabled
    }
}

/// The stored code of a module status.
pub fn module_status_str(s: &ModuleStatus) -> (r: &'static str)
    ensures
        r@ == module_status_text(*s),
{
    match s {
        ModuleStatus::Available => "available",
        ModuleStatus::Partial => "partial",
        ModuleStatus::Quarantined => "quarantined",
        ModuleStatus::Disabled => "disabled",
    }
}

/// Decode a stored module status.
pub fn parse_module_status(t: &str) -> (r: ModuleStatus)
    ensures
        r == module_status_from_text(t@),
{
    if str_eq(t, "available") {
        ModuleStatus::Available
    } else if str_eq(t, "partial") {
        ModuleStatus::Partial
    } else if str_eq(t, "quarantined") {
        ModuleStatus::Quarantined
    } else {
        ModuleStatus::Disabled
    }
}

/// Decoding the stored code of a module status gives the status back.
pub proof fn lemma_module_status_round_trip(s: ModuleStatus)
    ensures
        module_status_from_text(module_status_text(s)) == s,
{
    reveal_strlit("available");
    reveal_strlit("partial");
    reveal_strlit("quarantined");
    reveal_strlit("disabled");
    assert("available"@.len() == 9);
    assert("partial"@.len() == 7);
    assert("quarantined"@.len() == 11);
    assert("disabled"@.len() == 8);
}

// ── Transport kind ────────────────────────────────────────────────────────────

/// The stored code of a transport kind.
pub open spec fn transport_text(t: TransportKind) -> Seq<char> {
    match t {
        TransportKind::Bluetooth => "bluetooth"@,
        TransportKind::WifiDirect => "wifi_direct"@,
        TransportKind::LocalNetwork => "local_network"@,
        TransportKind::QrBootstrap => "qr"@,
        TransportKind::SdCard => "sdcard"@,
        TransportKind::UsbOtg => "usb"@,
        TransportKind::LocalFile => "file"@,
    }
}

/// The transport kind a stored code stands for (`LocalFile` for any other text).
pub open spec fn transport_from_text(s: Seq<char>) -> TransportKind {
    if s == "bluetooth"@ {
        TransportKind::Bluetooth
    } else if s == "wifi_direct"@ {
        TransportKind::WifiDirect
    } else if s == "local_network"@ {
        TransportKind::LocalNetwork
    } else if s == "qr"@ {
        TransportKind::QrBootstrap
    } else if s == "sdcard"@ {
        TransportKind::SdCard
    } else if s == "usb"@ {
        TransportKind::UsbOtg
    } else {
        TransportKind::LocalFile
    }
}

/// The stored code of a transport kind.
pub fn transport_str(t: &TransportKind) -> (r: &'static str)
    ensures
        r@ == transport_text(*t),
{
    match t {
        TransportKind::Bluetooth => "bluetooth",
        TransportKind::WifiDirect => "wifi_direct",
        TransportKind::LocalNetwork => "local_network",
        TransportKind::QrBootstrap => "qr",
        TransportKind::SdCard => "sdcard",
        TransportKind::UsbOtg => "usb",
        TransportKind::LocalFile => "file",
    }
}

/// Decode a stored transport kind.
pub fn parse_transport(s: &str) -> (r: TransportKind)
    ensures
        r == transport_from_text(s@),
{
    if str_eq(s, "bluetooth") {
        TransportKind::Bluetooth
    } else if str_eq(s, "wifi_direct") {
        TransportKind::WifiDirect
    } else if str_eq(s, "local_network") {
        TransportKind::LocalNetwork
    } else if str_eq(s, "qr") {
        TransportKind::QrBootstrap
    } else if str_eq(s, "sdcard") {
        TransportKind::SdCard
    } else if str_eq(s, "usb") {
        TransportKind::UsbOtg
    } else {
        TransportKind::LocalFile
    }
}

/// Decoding the stored code of a transport kind gives the kind back.
pub proof fn lemma_transport_round_trip(t: TransportKind)
    ensures
        transport_from_text(transport_text(t)) == t,
{
    reveal_strlit("bluetooth");
    reveal_strlit("wifi_direct");
    reveal_strlit("local_network");
    reveal_strlit("qr");
    reveal_strlit("sdcard");
    reveal_strlit("usb");
    reveal_strlit("file");
    assert("bluetooth"@.len() == 9);
    assert("wifi_direct"@.len() == 11);
    assert("local_network"@.len() == 13);
    assert("qr"@.len() == 2);
    assert("sdcard"@.len() == 6);
    assert("usb"@.len() == 3);
    assert("file"@.len() == 4);
}

// ── Sync status ───────────────────────────────────────────────────────────────

/// The stored code of a sync status.
pub open spec fn sync_status_text(s: SyncStatus) -> Seq<char> {
    match s {
        SyncStatus::Negotiating => "negotiating"@,
        SyncStatus::Transferring => "transferring"@,
        SyncStatus::Verifying => "verifying"@,
        SyncStatus::Completed => "completed"@,
        SyncStatus::Failed => "failed"@,
        SyncStatus::Aborted => "aborted"@,
    }
}

/// The sync status a stored code stands for (`Aborted` for any other text).
pub open spec fn sync_status_from_text(s: Seq<char>) -> SyncStatus {
    if s == "negotiating"@ {
        SyncStatus::Negotiating
    } else if s == "transferring"@ {
        SyncStatus::Transferring
    } else if s == "verifying"@ {
        SyncStatus::Verifying
    } else if s == "completed"@ {
        SyncStatus::Completed
    } else if s == "failed"@ {
        SyncStatus::Failed
    } else {
        SyncStatus::Aborted
    }
}

/// The stored code of a sync status.
pub fn sync_status_str(s: &SyncStatus) -> (r: &'static str)
    ensures
        r@ == sync_status_text(*s),
{
    match s {
        SyncStatus::Negotiating => "negotiating",
        SyncStatus::Transferring => "transferring",
        SyncStatus::Verifying => "verifying",
        SyncStatus::Completed => "completed",
        SyncStatus::Failed => "failed",
        SyncStatus::Aborted => "aborted",
    }
}

/// Decode a stored sync status.
pub fn parse_sync_status(s: &str) -> (r: SyncStatus)
    ensures
        r == sync_status_from_text(s@),
{
    if str_eq(s, "negotiating") {
        SyncStatus::Negotiating
    } else if str_eq(s, "transferring") {
        SyncStatus::Transferring
    } else if str_eq(s, "verifying") {
        SyncStatus::Verifying
    } else if str_eq(s, "completed") {
        SyncStatus::Completed
    } else if str_eq(s, "failed") {
        SyncStatus::Failed
    } else {
        SyncStatus::Aborted
    }
}

/// Decoding the stored code of a sync status gives the status back.
pub proof fn lemma_sync_status_round_trip(s: SyncStatus)
    ensures
        sync_status_from_text(sync_status_text(s)) == s,
{
    reveal_strlit("negotiating");
    reveal_strlit("transferring");
    reveal_strlit("verifying");
    reveal_strlit("completed");
    reveal_strlit("failed");
    reveal_strlit("aborted");
    assert("negotiating"@.len() == 11);
    assert("transferring"@.len() == 12);
    assert("verifying"@.len() == 9);
    assert("completed"@.len() == 9);
    assert("failed"@.len() == 6);
    assert("aborted"@.len() == 7);
    assert("verifying"@[0] == 'v');
    assert("completed"@[0] == 'c');
}

// ── Lesson progress status ────────────────────────────────────────────────────

/// The stored code of a lesson progress status.
pub open spec fn lesson_status_text(s: LessonProgressStatus) -> Seq<char> {
    match s {
        LessonProgressStatus::NotStarted => "not_started"@,
        LessonProgressStatus::InProgress => "in_progress"@,
        LessonProgressStatus::Completed => "completed"@,
    }
}

/// The lesson status a stored code stands for (`NotStarted` for any other text).
pub open spec fn lesson_status_from_text(s: Seq<char>) -> LessonProgressStatus {
    if s == "completed"@ {
        LessonProgressStatus::Completed
    } else if s == "in_progress"@ {
        LessonProgressStatus::InProgress
    } else {
        LessonProgressStatus::NotStarted
    }
}

/// The stored code of a lesson progress status.
pub fn lesson_status_str(s: &LessonProgressStatus) -> (r: &'static str)
    ensures
        r@ == lesson_status_text(*s),
{
    match s {
        LessonProgressStatus::NotStarted => "not_started",
        LessonProgressStatus::InProgress => "in_progress",
        LessonProgressStatus::Completed => "completed",
    }
}

/// Decode a stored lesson progress status.
pub fn parse_lesson_status(s: &str) -> (r: LessonProgressStatus)
    ensures
        r == lesson_status_from_text(s@),
{
    if str_eq(s, "completed") {
        LessonProgressStatus::Completed
    } else if str_eq(s, "in_progress") {
        LessonProgressStatus::InProgress
    } else {
        LessonProgressStatus::NotStarted
    }
}

/// Decoding the stored code of a lesson status gives the status back.
pub proof fn lemma_lesson_status_round_trip(s: LessonProgressStatus)
    ensures
        lesson_status_from_text(lesson_status_text(s)) == s,
{
    reveal_strlit("not_started");
    reveal_strlit("in_progress");
    reveal_strlit("completed");
    assert("not_started"@.len() == 11);
    assert("in_progress"@.len() == 11);
    assert("completed"@.len() == 9);
    assert("not_started"@[0] == 'n');
    assert("in_progress"@[0] == 'i');
}

// ── Rows ──────────────────────────────────────────────────────────────────────

/// A stored package row: id, module id, version (major, minor, patch),
/// manifest hash, status code, install time, quarantine reason.
pub type PackageRow = (String, String, i64, i64, i64, String, String, Option<i64>, Option<String>);

/// Decode a stored package row. Version parts keep their low 16 bits.
pub fn row_to_package(r: PackageRow) -> (p: ContentPackage)
    ensures
        p.package_id == r.0,
        p.module_id == r.1,
        p.version == (ModuleVersion { major: r.2 as u16, minor: r.3 as u16, patch: r.4 as u16 }),
        p.manifest_hash == r.5,
        p.status == package_status_from_text(r.6@),
        p.installed_at == r.7,
        p.quarantine_reason == r.8,
{
    let (package_id, module_id, major, minor, patch, manifest_hash, status_str, installed_at, quarantine_reason) = r;
    let status = parse_status(status_str.as_str());
    ContentPackage {
        package_id,
        module_id,
        version: ModuleVersion::new(major as u16, minor as u16, patch as u16),
        manifest_hash,
        status,
        installed_at,
        quarantine_reason,
    }
}

/// A stored module row: id, category, title key, description key, version
/// (major, minor, patch), status code, estimated minutes.
pub type ModuleRow = (String, String, String, String, i64, i64, i64, String, Option<i64>);

/// Decode a stored module row. Version parts and minutes keep their low 16 bits.
pub fn row_to_module(r: ModuleRow) -> (m: Module)
    ensures
        m.module_id == r.0,
        m.category_id == r.1,
        m.title_key == r.2,
        m.description_key == r.3,
        m.version == (ModuleVersion { major: r.4 as u16, minor: r.5 as u16, patch: r.6 as u16 }),
        m.status == module_status_from_text(r.7@),
        m.estimated_minutes == (match r.8 {
            Some(v) => Some(v as u16),
            None => None,
        }),
{
    let (module_id, category_id, title_key, description_key, major, minor, patch, status_str, est_mins) = r;
    let status = parse_module_status(status_str.as_str());
    let estimated_minutes = match est_mins {
        Some(v) => Some(v as u16),
        None => None,
    };
    Module {
        module_id,
        category_id,
        title_key,
        description_key,
        version: ModuleVersion::new(major as u16, minor as u16, patch as u16),
        status,
        estimated_minutes,
    }
}

/// A stored lesson row: id, module id, title key, sort order, step count.
pub type LessonRow = (String, String, String, i64, i64);

/// Decode a stored lesson row. Counts keep their low 32 bits.
pub fn lesson_from_row(r: LessonRow) -> (l: Lesson)
    ensures
        l.lesson_id == r.0,
        l.module_id == r.1,
        l.title_key == r.2,
        l.sort_order == r.3 as u32,
        l.step_count == r.4 as u32,
{
    let (lesson_id, module_id, title_key, sort_order, step_count) = r;
    Lesson { lesson_id, module_id, title_key, sort_order: sort_order as u32, step_count: step_count as u32 }
}

/// A stored resume-state row: profile id, lesson id, last completed step,
/// update time.
pub type ResumeRow = (String, String, i64, i64);

/// Decode a stored resume-state row. The step keeps its low 32 bits.
pub fn resume_state_from_row(r: ResumeRow) -> (s: ResumeState)
    ensures
        s.profile_id == r.0,
        s.lesson_id == r.1,
        s.last_completed_step_order == r.2 as u32,
        s.updated_at == r.3,
{
    let (profile_id, lesson_id, step, updated_at) = r;
    ResumeState { profile_id, lesson_id, last_completed_step_order: step as u32, updated_at }
}

/// A stored lesson-progress row: profile id, lesson id, status code, steps
/// completed, steps total, start time, completion time.
pub type LessonProgressRow = (String, String, String, i64, i64, i64, Option<i64>);

/// Decode a stored lesson-progress row. Counts keep their low 32 bits.
pub fn lesson_progress_from_row(r: LessonProgressRow) -> (p: LessonProgress)
    ensures
        p.profile_id == r.0,
        p.lesson_id == r.1,
        p.status == lesson_status_from_text(r.2@),
        p.steps_completed == r.3 as u32,
        p.steps_total == r.4 as u32,
        p.started_at == r.5,
        p.completed_at == r.6,
{
    let (profile_id, lesson_id, status_str, steps_completed, steps_total, started_at, completed_at) = r;
    let status = parse_lesson_status(status_str.as_str());
    LessonProgress {
        profile_id,
        lesson_id,
        status,
        steps_completed: steps_completed as u32,
        steps_total: steps_total as u32,
        started_at,
        completed_at,
    }
}

/// A stored sync-session row: id, transport code, peer ephemeral hash, start,
/// end, status code, packages received, packages sent.
pub type SyncSessionRow = (String, String, String, i64, Option<i64>, String, i64, i64);

/// Decode a stored sync-session row. Counts keep their low 32 bits.
pub fn sync_session_from_row(r: SyncSessionRow) -> (s: SyncSession)
    ensures
        s.session_id == r.0,
        s.transport == transport_from_text(r.1@),
        s.peer_ephemeral_id == r.2,
        s.started_at == r.3,
        s.completed_at == r.4,
        s.status == sync_status_from_text(r.5@),
        s.objects_received == r.6 as u32,
        s.objects_sent == r.7 as u32,
{
    let (session_id, transport, peer, started_at, ended_at, status, recv, sent) = r;
    let transport = parse_transport(transport.as_str());
    let status = parse_sync_status(status.as_str());
    SyncSession {
        session_id,
        peer_ephemeral_id: peer,
        transport,
        started_at,
        completed_at: ended_at,
        status,
        objects_received: recv as u32,
        objects_sent: sent as u32,
    }
}

// ── Alarm entries ───────────────────────────────────────────────────────────

/// Minimal alarm row returned by queries.
#[derive(Debug, Clone)]
pub struct AlarmRow {
    pub alarm_id: String,
    pub hour: u8,
    pub minute: u8,
    pub label: Option<String>,
    pub enabled: bool,
    pub repeat_days: u8,
}

/// The stored columns of an alarm: id, hour, minute, label, enabled flag
/// (0 or 1), repeat-day mask.
pub type AlarmColumns = (String, i64, i64, Option<String>, i64, i64);

/// The columns written for an alarm.
pub open spec fn alarm_columns_of(a: AlarmRow) -> AlarmColumns {
    (a.alarm_id, a.hour as i64, a.minute as i64, a.label, if a.enabled { 1i64 } else { 0i64 }, a.repeat_days as i64)
}

/// The alarm read back from stored columns: numbers keep their low 8 bits and
/// any non-zero flag means enabled.
pub open spec fn alarm_of_columns(c: AlarmColumns) -> AlarmRow {
    AlarmRow {
        alarm_id: c.0,
        hour: c.1 as u8,
        minute: c.2 as u8,
        label: c.3,
        enabled: c.4 != 0,
        repeat_days: c.5 as u8,
    }
}

/// The columns written for an alarm.
pub fn alarm_to_columns(a: &AlarmRow) -> (c: AlarmColumns)
    ensures
        c == alarm_columns_of(*a),
{
    let enabled: i64 = if a.enabled { 1 } else { 0 };
    (a.alarm_id.clone(), a.hour as i64, a.minute as i64, a.label.clone(), enabled, a.repeat_days as i64)
}

/// Decode stored alarm columns.
pub fn alarm_from_columns(c: AlarmColumns) -> (a: AlarmRow)
    ensures
        a == alarm_of_columns(c),
{
    let (alarm_id, hour, minute, label, enabled, repeat_days) = c;
    AlarmRow {
        alarm_id,
        hour: hour as u8,
        minute: minute as u8,
        label,
        enabled: enabled != 0,
        repeat_days: repeat_days as u8,
    }
}

/// An alarm read back after it was written is the alarm that was written.
pub proof fn lemma_alarm_round_trip(a: AlarmRow)
    ensures
        alarm_of_columns(alarm_columns_of(a)) == a,
{
}

} // verus!
