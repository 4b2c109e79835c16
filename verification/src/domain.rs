//! Shared domain model: curriculum, packages, progress, sync records, the
//! approved event buckets, wipe scopes and the `.nmp` package magic.

use vstd::prelude::*;

use crate::text::str_eq;

verus! {

/// Errors shared by the platform interfaces (crypto, storage, sync).
#[derive(Debug, Clone)]
pub enum CoreError {
    SignatureVerificationFailed,
    Crypto(String),
    Storage(String),
    HashMismatch { hash: String },
    Sync(String),
}

// ── Curriculum ────────────────────────────────────────────────────────────────

/// Semantic version of a learning module.
#[derive(Debug, Clone, Copy, PartialEq, Eq, Structural)]
pub struct ModuleVersion {
    pub major: u16,
    pub minor: u16,
    pub patch: u16,
}

impl ModuleVersion {
    /// The version `major.minor.patch`.
    pub fn new(major: u16, minor: u16, patch: u16) -> (v: Self)
        ensures
            v.major == major,
            v.minor == minor,
            v.patch == patch,
    {
        ModuleVersion { major, minor, patch }
    }
}

/// Availability of an installed module.
#[derive(Debug, Clone, Copy, PartialEq, Eq, Structural)]
pub enum ModuleStatus {
    Available,
    Partial,
    Quarantined,
    Disabled,
}

/// The two pillars of the curriculum.
#[derive(Debug, Clone, Copy, PartialEq, Eq, Structural)]
pub enum CurriculumAxis {
    Shield,
    Spear,
}

/// A learning module record.
#[derive(Debug, Clone)]
pub struct Module {
    pub module_id: String,
    pub category_id: String,
    pub title_key: String,
    pub description_key: String,
    pub version: ModuleVersion,
    pub status: ModuleStatus,
    pub estimated_minutes: Option<u16>,
}

/// A lesson within a module.
#[derive(Debug, Clone)]
pub struct Lesson {
    pub lesson_id: String,
    pub module_id: String,
    pub title_key: String,
    pub sort_order: u32,
    pub step_count: u32,
}

// ── Packages ──────────────────────────────────────────────────────────────────

/// Installation status of a content package.
#[derive(Debug, Clone, Copy, PartialEq, Eq, Structural)]
pub enum PackageStatus {
    Pending,
    Installed,
    Incomplete,
    Quarantined,
    Disabled,
}

/// An installed (or attempted) content package record.
#[derive(Debug, Clone)]
pub struct ContentPackage {
    pub package_id: String,
    pub module_id: String,
    pub version: ModuleVersion,
    pub manifest_hash: String,
    pub status: PackageStatus,
    pub installed_at: Option<i64>,
    pub quarantine_reason: Option<String>,
}

/// The four magic bytes that open every `.nmp` package: `TAKT`.
pub open spec fn nmp_magic() -> Seq<u8> {
    seq![0x54u8, 0x41u8, 0x4Bu8, 0x54u8]
}

/// The `.nmp` magic bytes.
pub const NMP_MAGIC: [u8; 4] = [0x54, 0x41, 0x4B, 0x54];

/// `true` iff `data` starts with the `.nmp` magic bytes.
pub open spec fn has_nmp_magic(data: Seq<u8>) -> bool {
    data.len() >= 4 && data.subrange(0, 4) == nmp_magic()
}

/// Recognising a package by its first bytes: data carries the `.nmp` magic
/// exactly when it has at least four bytes and they are `T`, `A`, `K`, `T`;
/// what follows them does not matter.
pub proof fn lemma_magic_is_first_four_bytes(data: Seq<u8>)
    ensures
        has_nmp_magic(data) <==> (data.len() >= 4 && data[0] == 0x54 && data[1] == 0x41 && data[2] == 0x4B
            && data[3] == 0x54),
{
    if data.len() >= 4 && data[0] == 0x54 && data[1] == 0x41 && data[2] == 0x4B && data[3] == 0x54 {
        assert(data.subrange(0, 4) =~= nmp_magic());
    }
    if has_nmp_magic(data) {
        assert(data.subrange(0, 4)[0] == data[0]);
        assert(data.subrange(0, 4)[1] == data[1]);
        assert(data.subrange(0, 4)[2] == data[2]);
        assert(data.subrange(0, 4)[3] == data[3]);
    }
}

/// Check whether `data` starts with the `.nmp` magic bytes.
pub fn check_magic(data: &[u8]) -> (r: bool)
    ensures
        r == has_nmp_magic(data@),
{
    if data.len() < 4 {
        return false;
    }
    let r = data[0] == 0x54u8 && data[1] == 0x41u8 && data[2] == 0x4Bu8 && data[3] == 0x54u8;
    proof {
        if r {
            assert(data@.subrange(0, 4) =~= nmp_magic());
        } else {
            if data@.subrange(0, 4) == nmp_magic() {
                assert(data@.subrange(0, 4)[0] == data@[0]);
                assert(data@.subrange(0, 4)[1] == data@[1]);
                assert(data@.subrange(0, 4)[2] == data@[2]);
                assert(data@.subrange(0, 4)[3] == data@[3]);
            }
        }
    }
    r
}

// ── Progress ──────────────────────────────────────────────────────────────────

/// A local learner profile (no personal data beyond an optional alias).
#[derive(Debug, Clone)]
pub struct LocalProfile {
    pub profile_id: String,
    pub display_alias: Option<String>,
    pub locale: Option<String>,
    pub created_at: i64,
    pub last_active_at: Option<i64>,
}

impl LocalProfile {
    /// A fresh profile created at `now`, with no alias, locale or activity yet.
    pub fn new(profile_id: String, now: i64) -> (p: Self)
        ensures
            p.profile_id == profile_id,
            p.display_alias is None,
            p.locale is None,
            p.created_at == now,
            p.last_active_at is None,
    {
        LocalProfile { profile_id, display_alias: None, locale: None, created_at: now, last_active_at: None }
    }
}

/// Where the learner stopped inside a lesson.
#[derive(Debug, Clone)]
pub struct ResumeState {
    pub profile_id: String,
    pub lesson_id: String,
    pub last_completed_step_order: u32,
    pub updated_at: i64,
}

/// Coarse status of a lesson for one profile.
#[derive(Debug, Clone, Copy, PartialEq, Eq, Structural)]
pub enum LessonProgressStatus {
    NotStarted,
    InProgress,
    Completed,
}

/// Aggregate progress of one lesson for one profile.
#[derive(Debug, Clone)]
pub struct LessonProgress {
    pub profile_id: String,
    pub lesson_id: String,
    pub status: LessonProgressStatus,
    pub steps_completed: u32,
    pub steps_total: u32,
    pub started_at: i64,
    pub completed_at: Option<i64>,
}

/// A learning session.
#[derive(Debug, Clone)]
pub struct LearningSession {
    pub session_id: String,
    pub profile_id: String,
    pub started_at: i64,
    pub ended_at: Option<i64>,
}

/// One exercise attempt (correctness only, never the answer given).
#[derive(Debug, Clone)]
pub struct ExerciseAttempt {
    pub attempt_id: String,
    pub profile_id: String,
    pub step_id: String,
    pub correct: bool,
    pub attempt_number: u32,
    pub attempted_at: i64,
}

// ── Sync ──────────────────────────────────────────────────────────────────────

/// One package entry of a device inventory.
#[derive(Debug, Clone)]
pub struct SyncInventoryItem {
    pub package_id: String,
    pub version_string: String,
    pub manifest_hash: String,
    pub locally_available: bool,
}

/// Physical channel of a sync session.
#[derive(Debug, Clone, Copy, PartialEq, Eq, Structural)]
pub enum TransportKind {
    Bluetooth,
    WifiDirect,
    LocalNetwork,
    QrBootstrap,
    SdCard,
    UsbOtg,
    LocalFile,
}

/// Lifecycle status of a sync session.
#[derive(Debug, Clone, Copy, PartialEq, Eq, Structural)]
pub enum SyncStatus {
    Negotiating,
    Transferring,
    Verifying,
    Completed,
    Failed,
    Aborted,
}

/// A sync session record (the peer is known only by an ephemeral id).
#[derive(Debug, Clone)]
pub struct SyncSession {
    pub session_id: String,
    pub peer_ephemeral_id: String,
    pub transport: TransportKind,
    pub started_at: i64,
    pub completed_at: Option<i64>,
    pub status: SyncStatus,
    pub objects_received: u32,
    pub objects_sent: u32,
}

// ── Safety settings ───────────────────────────────────────────────────────────

/// The approved, content-free event-log buckets.
#[derive(Debug, Clone, Copy, PartialEq, Eq, Structural)]
pub enum EventBucket {
    SessionOpen,
    PackageOk,
    WipeOk,
    IntegrityFail,
}

/// The tag stored for a bucket.
pub open spec fn bucket_tag(b: EventBucket) -> Seq<char> {
    match b {
        EventBucket::SessionOpen => "s.open"@,
        EventBucket::PackageOk => "pkg.ok"@,
        EventBucket::WipeOk => "wipe.ok"@,
        EventBucket::IntegrityFail => "integ.fail"@,
    }
}

/// `true` iff `tag` is the tag of an approved bucket.
pub open spec fn is_approved_tag(tag: Seq<char>) -> bool {
    exists|b: EventBucket| bucket_tag(b) == tag
}

impl EventBucket {
    /// The tag stored in the event log for this bucket.
    pub fn tag(&self) -> (t: &'static str)
        ensures
            t@ == bucket_tag(*self),
    {
        match self {
            EventBucket::SessionOpen => "s.open",
            EventBucket::PackageOk => "pkg.ok",
            EventBucket::WipeOk => "wipe.ok",
            EventBucket::IntegrityFail => "integ.fail",
        }
    }

    /// `true` iff `tag` is the tag of an approved bucket.
    pub fn is_approved(tag: &str) -> (r: bool)
        ensures
            r == is_approved_tag(tag@),
    {
        let r = str_eq(tag, "s.open") || str_eq(tag, "pkg.ok") || str_eq(tag, "wipe.ok")
            || str_eq(tag, "integ.fail");
        proof {
            if r {
                if tag@ == "s.open"@ {
                    assert(bucket_tag(EventBucket::SessionOpen) == tag@);
                } else if tag@ == "pkg.ok"@ {
                    assert(bucket_tag(EventBucket::PackageOk) == tag@);
                } else if tag@ == "wipe.ok"@ {
                    assert(bucket_tag(EventBucket::WipeOk) == tag@);
                } else {
                    assert(bucket_tag(EventBucket::IntegrityFail) == tag@);
                }
            } else {
                assert forall|b: EventBucket| bucket_tag(b) != tag@ by {
                    match b {
                        EventBucket::SessionOpen => {},
                        EventBucket::PackageOk => {},
                        EventBucket::WipeOk => {},
                        EventBucket::IntegrityFail => {},
                    }
                }
            }
        }
        r
    }
}

/// Escalating wipe scopes.
#[derive(Debug, Clone, Copy, PartialEq, Eq, Structural)]
pub enum WipeScope {
    /// Destroy key material only (data becomes unreadable).
    KeysOnly,
    /// Remove learning progress only.
    State,
    /// Destroy keys, then delete all core data.
    Hard,
    /// Hard wipe plus reset of the clock facade.
    Factory,
}

} // verus!
