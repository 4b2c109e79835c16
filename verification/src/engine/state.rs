//! Serializable lesson state for crash-safe resume.
//!
//! The state is written after every completed step (not during input handling),
//! so power loss within a step costs at most one step's progress.

use vstd::prelude::*;

verus! {

/// Complete state of an in-progress lesson session, persisted after each
/// step completion and restored on relaunch.
#[derive(Debug, Clone, PartialEq, Eq)]
pub struct LessonState {
    pub profile_id: String,
    pub lesson_id: String,
    /// Zero-indexed order of the last completed step.
    /// `None` means the lesson has been started but no step is finished yet.
    pub last_completed_step_order: Option<u32>,
    pub total_steps: u32,
    pub status: LessonStateStatus,
    /// Unix timestamp (seconds) when the lesson was first opened.
    pub started_at: i64,
}

/// Coarse status reflected from the state.
#[derive(Debug, Clone, Copy, PartialEq, Eq, Structural)]
pub enum LessonStateStatus {
    InProgress,
    Completed,
}

/// The zero-indexed step order to present next.
pub open spec fn next_order(last: Option<u32>) -> int {
    match last {
        None => 0,
        Some(n) => n + 1,
    }
}

/// `true` when the step order to present next is representable.
pub open spec fn next_order_fits(s: LessonState) -> bool {
    s.last_completed_step_order != Some(u32::MAX)
}

/// The state after completing the step at `order`, and whether it was the last.
pub open spec fn complete_step_spec(s: LessonState, order: u32) -> (LessonState, bool) {
    let is_last = order + 1 >= s.total_steps;
    (
        LessonState {
            last_completed_step_order: Some(order),
            status: if is_last { LessonStateStatus::Completed } else { s.status },
            ..s
        },
        is_last,
    )
}

/// Completing a step records it as the last completed one, so the following
/// step is the next one to present; it finishes the lesson exactly when that
/// step was the last, leaves the status alone otherwise, and changes nothing
/// else. With no step completed the first step (order 0) is next, and after
/// step `n` the step `n + 1` is.
pub proof fn lemma_complete_step_moves_to_next(s: LessonState, order: u32)
    ensures
        complete_step_spec(s, order).0.last_completed_step_order == Some(order),
        next_order(complete_step_spec(s, order).0.last_completed_step_order) == order + 1,
        next_order(None) == 0,
        complete_step_spec(s, order).1 <==> order + 1 >= s.total_steps,
        complete_step_spec(s, order).1 ==> complete_step_spec(s, order).0.status
            == LessonStateStatus::Completed,
        !complete_step_spec(s, order).1 ==> complete_step_spec(s, order).0.status == s.status,
        complete_step_spec(s, order).0.profile_id == s.profile_id,
        complete_step_spec(s, order).0.lesson_id == s.lesson_id,
        complete_step_spec(s, order).0.total_steps == s.total_steps,
        complete_step_spec(s, order).0.started_at == s.started_at,
{
}

impl LessonState {
    /// Create initial state when a lesson is first opened.
    pub fn new(profile_id: String, lesson_id: String, total_steps: u32, now: i64) -> (s: Self)
        ensures
            s.profile_id == profile_id,
            s.lesson_id == lesson_id,
            s.last_completed_step_order is None,
            s.total_steps == total_steps,
            s.status == LessonStateStatus::InProgress,
            s.started_at == now,
    {
        LessonState {
            profile_id,
            lesson_id,
            last_completed_step_order: None,
            total_steps,
            status: LessonStateStatus::InProgress,
            started_at: now,
        }
    }

    /// The zero-indexed step order to present next.
    pub fn next_step_order(&self) -> (r: u32)
        requires
            next_order_fits(*self),
        ensures
            r == next_order(self.last_completed_step_order),
    {
        match self.last_completed_step_order {
            None => 0,
            Some(n) => n + 1,
        }
    }

    /// Mark the step at `order` as completed. Returns `true` if this was the
    /// final step.
    pub fn complete_step(&mut self, order: u32) -> (is_last: bool)
        ensures
            (*final(self), is_last) == complete_step_spec(*old(self), order),
    {
        self.last_completed_step_order = Some(order);
        let is_last = order as u64 + 1 >= self.total_steps as u64;
        if is_last {
            self.status = LessonStateStatus::Completed;
        }
        is_last
    }

    /// Number of completed steps.
    pub fn completed_count(&self) -> (r: u32)
        requires
            next_order_fits(*self),
        ensures
            r == next_order(self.last_completed_step_order),
    {
        match self.last_completed_step_order {
            None => 0,
            Some(n) => n + 1,
        }
    }
}

} // verus!
