//! Wipe plans for the storage layer.
//!
//! Three levels of erasure, in order of escalating thoroughness:
//!
//! 1. **State wipe** — remove learning progress only; keys and packages intact.
//! 2. **Hard wipe** — destroy crypto keys first, then delete all core data.
//! 3. **Factory reset** — hard wipe, then reset the facade to an unconfigured
//!    clock.
//!
//! A plan is a list of steps; the caller runs them in order against the two
//! databases. In a hard wipe and a factory reset key destruction comes first,
//! so power loss mid-wipe leaves the remaining data unreadable. Every plan is idempotent: running it on an already
//! wiped database changes nothing more.

use vstd::prelude::*;

use crate::domain::{is_approved_tag, EventBucket, WipeScope};
use crate::security::wipe::fill_random;

verus! {

/// Tables of `core.sqlite`.
#[derive(Debug, Clone, Copy, PartialEq, Eq, Structural)]
pub enum CoreTable {
    EventLog,
    ExerciseAttempts,
    LearningSessions,
    LessonProgress,
    ResumeState,
    IntegrityChecks,
    PackageObjects,
    ContentObjects,
    LessonSteps,
    Lessons,
    Modules,
    ContentPackages,
    TrustAnchors,
    LocalProfiles,
    SyncSessions,
    ImportJobs,
}

/// Tables of `facade.sqlite`.
#[derive(Debug, Clone, Copy, PartialEq, Eq, Structural)]
pub enum FacadeTable {
    ClockSettings,
    AlarmEntries,
    SlotConfig,
    KeyRegistry,
}

/// One step of a wipe plan.
#[derive(Debug, Clone, Copy, PartialEq, Eq, Structural)]
pub enum WipeStep {
    /// Overwrite every live wrapped key and every unlock-slot verifier with
    /// random noise, marking the keys destroyed.
    DestroyKeySlots,
    /// Delete every row of a core table.
    ClearCore(CoreTable),
    /// Delete every row of a facade table.
    ClearFacade(FacadeTable),
    /// Delete every clock setting except the display mode.
    ResetClockSettings,
}

/// The SQL name of a core table.
pub open spec fn core_table_text(t: CoreTable) -> Seq<char> {
    match t {
        CoreTable::EventLog => "event_log"@,
        CoreTable::ExerciseAttempts => "exercise_attempts"@,
        CoreTable::LearningSessions => "learning_sessions"@,
        CoreTable::LessonProgress => "lesson_progress"@,
        CoreTable::ResumeState => "resume_state"@,
        CoreTable::IntegrityChecks => "integrity_checks"@,
        CoreTable::PackageObjects => "package_objects"@,
        CoreTable::ContentObjects => "content_objects"@,
        CoreTable::LessonSteps => "lesson_steps"@,
        CoreTable::Lessons => "lessons"@,
        CoreTable::Modules => "modules"@,
        CoreTable::ContentPackages => "content_packages"@,
        CoreTable::TrustAnchors => "trust_anchors"@,
        CoreTable::LocalProfiles => "local_profiles"@,
        CoreTable::SyncSessions => "sync_sessions"@,
        CoreTable::ImportJobs => "import_jobs"@,
    }
}

/// The SQL name of a core table.
pub fn core_table_name(t: CoreTable) -> (r: &'static str)
    ensures
        r@ == core_table_text(t),
{
    match t {
        CoreTable::EventLog => "event_log",
        CoreTable::ExerciseAttempts => "exercise_attempts",
        CoreTable::LearningSessions => "learning_sessions",
        CoreTable::LessonProgress => "lesson_progress",
        CoreTable::ResumeState => "resume_state",
        CoreTable::IntegrityChecks => "integrity_checks",
        CoreTable::PackageObjects => "package_objects",
        CoreTable::ContentObjects => "content_objects",
        CoreTable::LessonSteps => "lesson_steps",
        CoreTable::Lessons => "lessons",
        CoreTable::Modules => "modules",
        CoreTable::ContentPackages => "content_packages",
        CoreTable::TrustAnchors => "trust_anchors",
        CoreTable::LocalProfiles => "local_profiles",
        CoreTable::SyncSessions => "sync_sessions",
        CoreTable::ImportJobs => "import_jobs",
    }
}

/// The SQL name of a facade table.
pub open spec fn facade_table_text(t: FacadeTable) -> Seq<char> {
    match t {
        FacadeTable::ClockSettings => "clock_settings"@,
        FacadeTable::AlarmEntries => "alarm_entries"@,
        FacadeTable::SlotConfig => "slot_config"@,
        FacadeTable::KeyRegistry => "key_registry"@,
    }
}

/// The SQL name of a facade table.
pub fn facade_table_name(t: FacadeTable) -> (r: &'static str)
    ensures
        r@ == facade_table_text(t),
{
    match t {
        FacadeTable::ClockSettings => "clock_settings",
        FacadeTable::AlarmEntries => "alarm_entries",
        FacadeTable::SlotConfig => "slot_config",
        FacadeTable::KeyRegistry => "key_registry",
    }
}

/// The learning-progress tables removed by a state wipe, in deletion order.
pub open spec fn state_wipe_steps() -> Seq<WipeStep> {
    seq![
        WipeStep::ClearCore(CoreTable::EventLog),
        WipeStep::ClearCore(CoreTable::ExerciseAttempts),
        WipeStep::ClearCore(CoreTable::LearningSessions),
        WipeStep::ClearCore(CoreTable::LessonProgress),
        WipeStep::ClearCore(CoreTable::ResumeState),
    ]
}

/// The core-data deletions of a hard wipe, in deletion order.
pub open spec fn core_data_steps() -> Seq<WipeStep> {
    state_wipe_steps() + seq![
        WipeStep::ClearCore(CoreTable::IntegrityChecks),
        WipeStep::ClearCore(CoreTable::PackageObjects),
        WipeStep::ClearCore(CoreTable::ContentObjects),
        WipeStep::ClearCore(CoreTable::LessonSteps),
        WipeStep::ClearCore(CoreTable::Lessons),
        WipeStep::ClearCore(CoreTable::Modules),
        WipeStep::ClearCore(CoreTable::ContentPackages),
        WipeStep::ClearCore(CoreTable::TrustAnchors),
        WipeStep::ClearCore(CoreTable::LocalProfiles),
        WipeStep::ClearCore(CoreTable::SyncSessions),
        WipeStep::ClearCore(CoreTable::ImportJobs),
    ]
}

/// The facade reset that follows a hard wipe in a factory reset.
pub open spec fn facade_reset_steps() -> Seq<WipeStep> {
    seq![
        WipeStep::ClearFacade(FacadeTable::AlarmEntries),
        WipeStep::ClearFacade(FacadeTable::SlotConfig),
        WipeStep::ClearFacade(FacadeTable::KeyRegistry),
        WipeStep::ResetClockSettings,
    ]
}

/// The steps of a wipe of the given scope.
pub open spec fn wipe_steps(scope: WipeScope) -> Seq<WipeStep> {
    match scope {
        WipeScope::KeysOnly => seq![WipeStep::DestroyKeySlots],
        WipeScope::State => state_wipe_steps(),
        WipeScope::Hard => seq![WipeStep::DestroyKeySlots] + core_data_steps(),
        WipeScope::Factory => seq![WipeStep::DestroyKeySlots] + core_data_steps() + facade_reset_steps(),
    }
}

fn push_core(plan: &mut Vec<WipeStep>, t: CoreTable)
    ensures
        final(plan)@ == old(plan)@.push(WipeStep::ClearCore(t)),
{
    plan.push(WipeStep::ClearCore(t));
}

fn push_state_steps(plan: &mut Vec<WipeStep>)
    ensures
        final(plan)@ == old(plan)@ + state_wipe_steps(),
{
    let ghost start = plan@;
    push_core(plan, CoreTable::EventLog);
    push_core(plan, CoreTable::ExerciseAttempts);
    push_core(plan, CoreTable::LearningSessions);
    push_core(plan, CoreTable::LessonProgress);
    push_core(plan, CoreTable::ResumeState);
    assert(plan@ =~= start + state_wipe_steps());
}

fn push_core_data_steps(plan: &mut Vec<WipeStep>)
    ensures
        final(plan)@ == old(plan)@ + core_data_steps(),
{
    let ghost start = plan@;
    push_state_steps(plan);
    push_core(plan, CoreTable::IntegrityChecks);
    push_core(plan, CoreTable::PackageObjects);
    push_core(plan, CoreTable::ContentObjects);
    push_core(plan, CoreTable::LessonSteps);
    push_core(plan, CoreTable::Lessons);
    push_core(plan, CoreTable::Modules);
    push_core(plan, CoreTable::ContentPackages);
    push_core(plan, CoreTable::TrustAnchors);
    push_core(plan, CoreTable::LocalProfiles);
    push_core(plan, CoreTable::SyncSessions);
    push_core(plan, CoreTable::ImportJobs);
    assert(plan@ =~= start + core_data_steps());
}

/// The plan of a wipe of the given scope.
pub fn wipe_plan(scope: WipeScope) -> (plan: Vec<WipeStep>)
    ensures
        plan@ == wipe_steps(scope),
{
    let mut plan: Vec<WipeStep> = Vec::new();
    match scope {
        WipeScope::KeysOnly => {
            plan.push(WipeStep::DestroyKeySlots);
            assert(plan@ =~= wipe_steps(scope));
        },
        WipeScope::State => {
            push_state_steps(&mut plan);
            assert(plan@ =~= wipe_steps(scope));
        },
        WipeScope::Hard => {
            plan.push(WipeStep::DestroyKeySlots);
            push_core_data_steps(&mut plan);
            assert(plan@ =~= wipe_steps(scope));
        },
        WipeScope::Factory => {
            plan.push(WipeStep::DestroyKeySlots);
            push_core_data_steps(&mut plan);
            let ghost mid = plan@;
            plan.push(WipeStep::ClearFacade(FacadeTable::AlarmEntries));
            plan.push(WipeStep::ClearFacade(FacadeTable::SlotConfig));
            plan.push(WipeStep::ClearFacade(FacadeTable::KeyRegistry));
            plan.push(WipeStep::ResetClockSettings);
            assert(plan@ =~= mid + facade_reset_steps());
            assert(plan@ =~= wipe_steps(scope));
        },
    }
    plan
}

// ── What a plan does ─────────────────────────────────────────────────────────

/// An abstract view of the two databases, as far as wiping is concerned.
pub struct WipeModel {
    /// Whether the wrapped keys and unlock verifiers have been overwritten.
    pub keys_destroyed: bool,
    /// The core tables that still hold rows.
    pub core_rows: Set<CoreTable>,
    /// The facade tables that still hold rows.
    pub facade_rows: Set<FacadeTable>,
    /// Whether clock settings other than the display mode remain.
    pub extra_clock_settings: bool,
}

/// The effect of one step.
pub open spec fn apply_step(m: WipeModel, step: WipeStep) -> WipeModel {
    match step {
        WipeStep::DestroyKeySlots => WipeModel { keys_destroyed: true, ..m },
        WipeStep::ClearCore(t) => WipeModel { core_rows: m.core_rows.remove(t), ..m },
        WipeStep::ClearFacade(t) => WipeModel { facade_rows: m.facade_rows.remove(t), ..m },
        WipeStep::ResetClockSettings => WipeModel { extra_clock_settings: false, ..m },
    }
}

/// The effect of running `steps` in order.
pub open spec fn apply_steps(m: WipeModel, steps: Seq<WipeStep>) -> WipeModel
    decreases steps.len(),
{
    if steps.len() == 0 {
        m
    } else {
        apply_step(apply_steps(m, steps.drop_last()), steps.last())
    }
}

/// The core tables that `steps` clear.
pub open spec fn cleared_core(steps: Seq<WipeStep>) -> Set<CoreTable> {
    Set::new(|t: CoreTable| steps.contains(WipeStep::ClearCore(t)))
}

/// The facade tables that `steps` clear.
pub open spec fn cleared_facade(steps: Seq<WipeStep>) -> Set<FacadeTable> {
    Set::new(|t: FacadeTable| steps.contains(WipeStep::ClearFacade(t)))
}

/// The closed form of running `steps`.
pub open spec fn after_steps(m: WipeModel, steps: Seq<WipeStep>) -> WipeModel {
    WipeModel {
        keys_destroyed: m.keys_destroyed || steps.contains(WipeStep::DestroyKeySlots),
        core_rows: m.core_rows.difference(cleared_core(steps)),
        facade_rows: m.facade_rows.difference(cleared_facade(steps)),
        extra_clock_settings: m.extra_clock_settings && !steps.contains(WipeStep::ResetClockSettings),
    }
}

proof fn lemma_apply_steps_closed_form(m: WipeModel, steps: Seq<WipeStep>)
    ensures
        apply_steps(m, steps) == after_steps(m, steps),
    decreases steps.len(),
{
    if steps.len() > 0 {
        let init = steps.drop_last();
        let last = steps.last();
        lemma_apply_steps_closed_form(m, init);
        assert(steps =~= init.push(last));
        assert forall|s: WipeStep| steps.contains(s) <==> (init.contains(s) || s == last) by {
            if steps.contains(s) {
                let i = choose|i: int| 0 <= i < steps.len() && steps[i] == s;
                if i < init.len() {
                    assert(init[i] == s);
                }
            }
            if init.contains(s) {
                let i = choose|i: int| 0 <= i < init.len() && init[i] == s;
                assert(steps[i] == s);
            }
            if s == last {
                assert(steps[steps.len() - 1] == s);
            }
        }
        let a = apply_steps(m, steps);
        let b = after_steps(m, steps);
        assert(a.core_rows =~= b.core_rows);
        assert(a.facade_rows =~= b.facade_rows);
    } else {
        assert(after_steps(m, steps).core_rows =~= m.core_rows);
        assert(after_steps(m, steps).facade_rows =~= m.facade_rows);
    }
}

/// Every wipe is idempotent: running a plan a second time on the database it
/// produced changes nothing.
pub proof fn lemma_wipe_idempotent(scope: WipeScope, m: WipeModel)
    ensures
        apply_steps(apply_steps(m, wipe_steps(scope)), wipe_steps(scope)) == apply_steps(m, wipe_steps(scope)),
{
    let p = wipe_steps(scope);
    lemma_apply_steps_closed_form(m, p);
    lemma_apply_steps_closed_form(apply_steps(m, p), p);
    let once = apply_steps(m, p);
    let twice = apply_steps(once, p);
    assert(twice.core_rows =~= once.core_rows);
    assert(twice.facade_rows =~= once.facade_rows);
}

/// Hard wipes and factory resets destroy the keys before anything else.
pub proof fn lemma_keys_destroyed_first(scope: WipeScope)
    requires
        scope == WipeScope::Hard || scope == WipeScope::Factory,
    ensures
        wipe_steps(scope)[0] == WipeStep::DestroyKeySlots,
        forall|i: int| 0 < i < wipe_steps(scope).len() ==> #[trigger] wipe_steps(scope)[i] != WipeStep::DestroyKeySlots,
{
}

/// A state wipe removes the learning progress (event log, exercise attempts,
/// sessions, lesson progress, resume state) and nothing else: keys, facade
/// data and every other core table stay as they were.
pub proof fn lemma_state_wipe_scope(m: WipeModel)
    ensures
        apply_steps(m, wipe_steps(WipeScope::State)).keys_destroyed == m.keys_destroyed,
        apply_steps(m, wipe_steps(WipeScope::State)).facade_rows == m.facade_rows,
        apply_steps(m, wipe_steps(WipeScope::State)).extra_clock_settings == m.extra_clock_settings,
        apply_steps(m, wipe_steps(WipeScope::State)).core_rows == m.core_rows.difference(
            set![CoreTable::EventLog, CoreTable::ExerciseAttempts, CoreTable::LearningSessions,
                CoreTable::LessonProgress, CoreTable::ResumeState],
        ),
{
    let p = wipe_steps(WipeScope::State);
    lemma_apply_steps_closed_form(m, p);
    assert(!p.contains(WipeStep::DestroyKeySlots)) by {
        if p.contains(WipeStep::DestroyKeySlots) {
            let i = choose|i: int| 0 <= i < p.len() && p[i] == WipeStep::DestroyKeySlots;
        }
    }
    assert(!p.contains(WipeStep::ResetClockSettings)) by {
        if p.contains(WipeStep::ResetClockSettings) {
            let i = choose|i: int| 0 <= i < p.len() && p[i] == WipeStep::ResetClockSettings;
        }
    }
    assert(cleared_facade(p) =~= Set::empty()) by {
        assert forall|t: FacadeTable| !p.contains(WipeStep::ClearFacade(t)) by {
            if p.contains(WipeStep::ClearFacade(t)) {
                let i = choose|i: int| 0 <= i < p.len() && p[i] == WipeStep::ClearFacade(t);
            }
        }
    }
    let gone = set![CoreTable::EventLog, CoreTable::ExerciseAttempts, CoreTable::LearningSessions,
        CoreTable::LessonProgress, CoreTable::ResumeState];
    assert(cleared_core(p) =~= gone) by {
        assert forall|t: CoreTable| p.contains(WipeStep::ClearCore(t)) <==> gone.contains(t) by {
            if p.contains(WipeStep::ClearCore(t)) {
                let i = choose|i: int| 0 <= i < p.len() && p[i] == WipeStep::ClearCore(t);
            }
            if gone.contains(t) {
                if t == CoreTable::EventLog { assert(p[0] == WipeStep::ClearCore(t)); }
                if t == CoreTable::ExerciseAttempts { assert(p[1] == WipeStep::ClearCore(t)); }
                if t == CoreTable::LearningSessions { assert(p[2] == WipeStep::ClearCore(t)); }
                if t == CoreTable::LessonProgress { assert(p[3] == WipeStep::ClearCore(t)); }
                if t == CoreTable::ResumeState { assert(p[4] == WipeStep::ClearCore(t)); }
            }
        }
    }
    assert(apply_steps(m, p).facade_rows =~= m.facade_rows);
}

/// After a hard wipe the keys are destroyed and every core table is empty;
/// the facade tables are untouched.
pub proof fn lemma_hard_wipe_effect(m: WipeModel)
    ensures
        apply_steps(m, wipe_steps(WipeScope::Hard)).keys_destroyed,
        apply_steps(m, wipe_steps(WipeScope::Hard)).core_rows == Set::<CoreTable>::empty(),
        apply_steps(m, wipe_steps(WipeScope::Hard)).facade_rows == m.facade_rows,
{
    let p = wipe_steps(WipeScope::Hard);
    lemma_apply_steps_closed_form(m, p);
    assert(p[0] == WipeStep::DestroyKeySlots);
    assert forall|t: CoreTable| p.contains(WipeStep::ClearCore(t)) by {
        let k: int = match t {
            CoreTable::EventLog => 1,
            CoreTable::ExerciseAttempts => 2,
            CoreTable::LearningSessions => 3,
            CoreTable::LessonProgress => 4,
            CoreTable::ResumeState => 5,
            CoreTable::IntegrityChecks => 6,
            CoreTable::PackageObjects => 7,
            CoreTable::ContentObjects => 8,
            CoreTable::LessonSteps => 9,
            CoreTable::Lessons => 10,
            CoreTable::Modules => 11,
            CoreTable::ContentPackages => 12,
            CoreTable::TrustAnchors => 13,
            CoreTable::LocalProfiles => 14,
            CoreTable::SyncSessions => 15,
            CoreTable::ImportJobs => 16,
        };
        assert(p[k] == WipeStep::ClearCore(t));
    }
    assert forall|t: FacadeTable| !p.contains(WipeStep::ClearFacade(t)) by {
        if p.contains(WipeStep::ClearFacade(t)) {
            let i = choose|i: int| 0 <= i < p.len() && p[i] == WipeStep::ClearFacade(t);
        }
    }
    assert(apply_steps(m, p).core_rows =~= Set::<CoreTable>::empty());
    assert(apply_steps(m, p).facade_rows =~= m.facade_rows);
}

/// A factory reset does everything a hard wipe does, then empties the alarm,
/// slot and key tables and drops every clock setting but the display mode.
pub proof fn lemma_factory_reset_effect(m: WipeModel)
    ensures
        wipe_steps(WipeScope::Factory).subrange(0, wipe_steps(WipeScope::Hard).len() as int)
            == wipe_steps(WipeScope::Hard),
        apply_steps(m, wipe_steps(WipeScope::Factory)).keys_destroyed,
        apply_steps(m, wipe_steps(WipeScope::Factory)).core_rows
            == apply_steps(m, wipe_steps(WipeScope::Hard)).core_rows,
        apply_steps(m, wipe_steps(WipeScope::Factory)).facade_rows == m.facade_rows.intersect(
            set![FacadeTable::ClockSettings],
        ),
        !apply_steps(m, wipe_steps(WipeScope::Factory)).extra_clock_settings,
{
    let h = wipe_steps(WipeScope::Hard);
    let f = wipe_steps(WipeScope::Factory);
    assert(f.subrange(0, h.len() as int) =~= h);
    lemma_apply_steps_closed_form(m, h);
    lemma_apply_steps_closed_form(m, f);
    assert(f[0] == WipeStep::DestroyKeySlots);
    let n = h.len() as int;
    assert(f[n + 3] == WipeStep::ResetClockSettings);
    assert forall|t: CoreTable| f.contains(WipeStep::ClearCore(t)) <==> h.contains(WipeStep::ClearCore(t)) by {
        if f.contains(WipeStep::ClearCore(t)) {
            let i = choose|i: int| 0 <= i < f.len() && f[i] == WipeStep::ClearCore(t);
            assert(h[i] == f[i]);
        }
        if h.contains(WipeStep::ClearCore(t)) {
            let i = choose|i: int| 0 <= i < h.len() && h[i] == WipeStep::ClearCore(t);
            assert(f[i] == h[i]);
        }
    }
    let kept = set![FacadeTable::ClockSettings];
    assert forall|t: FacadeTable| f.contains(WipeStep::ClearFacade(t)) <==> !kept.contains(t) by {
        if f.contains(WipeStep::ClearFacade(t)) {
            let i = choose|i: int| 0 <= i < f.len() && f[i] == WipeStep::ClearFacade(t);
        }
        if t == FacadeTable::AlarmEntries { assert(f[n] == WipeStep::ClearFacade(t)); }
        if t == FacadeTable::SlotConfig { assert(f[n + 1] == WipeStep::ClearFacade(t)); }
        if t == FacadeTable::KeyRegistry { assert(f[n + 2] == WipeStep::ClearFacade(t)); }
    }
    assert(apply_steps(m, f).core_rows =~= apply_steps(m, h).core_rows);
    assert(apply_steps(m, f).facade_rows =~= m.facade_rows.intersect(kept));
}

// ── Key shredding and log retention ──────────────────────────────────────────

/// How many times each wrapped key is overwritten.
pub const KEY_OVERWRITE_PASSES: usize = 7;

/// One block of random noise for overwriting a wrapped key or a verifier.
pub fn noise_block() -> (noise: Vec<u8>)
    ensures
        noise@.len() == 64,
{
    let mut v: Vec<u8> = vec![0u8; 64];
    fill_random(&mut v);
    v
}

/// The noise written over an unlock slot: a 64-byte verifier and, as the
/// salt, its first 32 bytes.
pub fn slot_noise() -> (r: (Vec<u8>, Vec<u8>))
    ensures
        r.0@.len() == 64,
        r.1@ == r.0@.subrange(0, 32),
{
    let verifier = noise_block();
    let salt = vstd::slice::slice_to_vec(vstd::slice::slice_subrange(verifier.as_slice(), 0, 32));
    (verifier, salt)
}

/// One write of the key-shredding step.
#[derive(Debug, Clone)]
pub enum ShredWrite {
    /// Overwrite a wrapped key with `noise` and mark it destroyed.
    OverwriteKey { key_id: String, noise: Vec<u8> },
    /// Overwrite an unlock slot's verifier and salt and clear its parameters.
    OverwriteSlot { slot_id: String, verifier: Vec<u8>, salt: Vec<u8> },
}

/// `w` is one of the overwrites of key `key_id`: 64 fresh noise bytes.
pub open spec fn is_key_overwrite(w: ShredWrite, key_id: Seq<char>) -> bool {
    w matches ShredWrite::OverwriteKey { key_id: k, noise } && k@ == key_id && noise@.len() == 64
}

/// `w` is the overwrite of slot `slot_id`: a 64-byte verifier and, as salt,
/// its first 32 bytes.
pub open spec fn is_slot_overwrite(w: ShredWrite, slot_id: Seq<char>) -> bool {
    w matches ShredWrite::OverwriteSlot { slot_id: s, verifier, salt } && s@ == slot_id
        && verifier@.len() == 64 && salt@ == verifier@.subrange(0, 32)
}

/// The writes that destroy the keys: each live key (in the given order) is
/// overwritten `KEY_OVERWRITE_PASSES` times in a row, then each unlock slot
/// is overwritten once.
pub fn key_shred_writes(key_ids: &Vec<String>, slot_ids: &Vec<String>) -> (w: Vec<ShredWrite>)
    requires
        KEY_OVERWRITE_PASSES * key_ids@.len() + slot_ids@.len() <= usize::MAX,
    ensures
        w@.len() == KEY_OVERWRITE_PASSES * key_ids@.len() + slot_ids@.len(),
        forall|k: int, p: int| 0 <= k < key_ids@.len() && 0 <= p < KEY_OVERWRITE_PASSES ==> is_key_overwrite(
            #[trigger] w@[KEY_OVERWRITE_PASSES * k + p], key_ids@[k]@),
        forall|s: int| 0 <= s < slot_ids@.len() ==> is_slot_overwrite(
            #[trigger] w@[KEY_OVERWRITE_PASSES * key_ids@.len() + s], slot_ids@[s]@),
{
    let mut w: Vec<ShredWrite> = Vec::new();
    let nk = key_ids.len();
    for k in 0..nk
        invariant
            nk == key_ids@.len(),
            KEY_OVERWRITE_PASSES * nk + slot_ids@.len() <= usize::MAX,
            w@.len() == KEY_OVERWRITE_PASSES * k,
            forall|k2: int, p: int| 0 <= k2 < k && 0 <= p < KEY_OVERWRITE_PASSES ==> is_key_overwrite(
                #[trigger] w@[KEY_OVERWRITE_PASSES * k2 + p], key_ids@[k2]@),
    {
        for p in 0..KEY_OVERWRITE_PASSES
            invariant
                nk == key_ids@.len(),
                k < nk,
                w@.len() == KEY_OVERWRITE_PASSES * k + p,
                forall|k2: int, p2: int| 0 <= k2 < k && 0 <= p2 < KEY_OVERWRITE_PASSES ==> is_key_overwrite(
                    #[trigger] w@[KEY_OVERWRITE_PASSES * k2 + p2], key_ids@[k2]@),
                forall|p2: int| 0 <= p2 < p ==> is_key_overwrite(
                    #[trigger] w@[KEY_OVERWRITE_PASSES * k + p2], key_ids@[k as int]@),
        {
            let noise = noise_block();
            w.push(ShredWrite::OverwriteKey { key_id: key_ids[k].clone(), noise });
        }
        proof {
            assert forall|k2: int, p2: int| 0 <= k2 < k + 1 && 0 <= p2 < KEY_OVERWRITE_PASSES implies is_key_overwrite(
                #[trigger] w@[KEY_OVERWRITE_PASSES * k2 + p2], key_ids@[k2]@) by {
                if k2 == k {
                } else {
                }
            }
        }
    }
    let ns = slot_ids.len();
    for s in 0..ns
        invariant
            ns == slot_ids@.len(),
            nk == key_ids@.len(),
            w@.len() == KEY_OVERWRITE_PASSES * nk + s,
            KEY_OVERWRITE_PASSES * nk + ns <= usize::MAX,
            forall|k2: int, p2: int| 0 <= k2 < nk && 0 <= p2 < KEY_OVERWRITE_PASSES ==> is_key_overwrite(
                #[trigger] w@[KEY_OVERWRITE_PASSES * k2 + p2], key_ids@[k2]@),
            forall|s2: int| 0 <= s2 < s ==> is_slot_overwrite(
                #[trigger] w@[KEY_OVERWRITE_PASSES * nk + s2], slot_ids@[s2]@),
    {
        let (verifier, salt) = slot_noise();
        w.push(ShredWrite::OverwriteSlot { slot_id: slot_ids[s].clone(), verifier, salt });
    }
    w
}

/// Events with a timestamp before this are purged by log retention.
pub fn log_retention_cutoff(now: i64, max_age_seconds: i64) -> (cutoff: i64)
    requires
        i64::MIN <= now - max_age_seconds <= i64::MAX,
    ensures
        cutoff == now - max_age_seconds,
{
    now - max_age_seconds
}

/// Validate that an event tag is an approved bucket: any other tag could
/// carry module names, profile ids or organisation identifiers.
pub fn validate_event_tag(tag: &str) -> (r: bool)
    ensures
        r == is_approved_tag(tag@),
{
    EventBucket::is_approved(tag)
}

} // verus!
