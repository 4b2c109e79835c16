//! Lesson runner: the step-advance state machine.
//!
//! The runner owns the current lesson steps and drives progression.
//! It is pure logic; no I/O, no storage calls, no UI.
//!
//! After each advance the caller is responsible for persisting
//! [`LessonRunner::state`] to storage before presenting the next step.

use vstd::prelude::*;

use crate::engine::error::{EngineError, EngineResult};
use crate::engine::exercise::{
    eval_spec, evaluate, max_attempts, max_attempts_spec, EvalResult, ExerciseAnswer,
};
use crate::engine::state::{
    complete_step_spec, next_order, next_order_fits, LessonState, LessonStateStatus,
};
use crate::engine::step::{ExerciseSpec, StepContent, StepKind};

verus! {

/// Events that a caller can feed into the runner.
#[derive(Debug)]
pub enum RunnerEvent {
    /// Advance past a non-interactive step (text, SVG, audio).
    Advance,
    /// Submit an exercise answer.
    Answer(ExerciseAnswer),
    /// Navigate backward one step.
    Back,
}

/// The runner's response to an event.
#[derive(Debug, Clone, Copy, PartialEq, Eq, Structural)]
pub enum RunnerResponse {
    /// Moved to the next step; persist state now.
    StepAdvanced { new_order: u32 },
    /// Exercise was correct; advance to next step.
    AnswerCorrect { new_order: u32 },
    /// Exercise was incorrect; stay on the same step.
    AnswerIncorrect { attempts_used: u32, max_attempts: u32 },
    /// Exercise max attempts exhausted; auto-advance.
    MaxAttemptsReached { new_order: u32 },
    /// Moved back one step.
    StepBack { new_order: u32 },
    /// Already at the first step.
    AtFirstStep,
    /// Lesson is complete.
    LessonComplete,
}

/// One transition of the runner: response, next lesson state, next attempt count.
pub type Transition = (EngineResult<RunnerResponse>, LessonState, u32);

/// The error for a step order past the end of the lesson.
pub open spec fn out_of_range(order: int, len: int) -> EngineError {
    EngineError::StepOutOfRange { index: order as usize, len: len as usize }
}

/// Complete the step at `order` and answer with `on_advance` unless it was the last step.
pub open spec fn complete_and_respond(
    s: LessonState,
    order: int,
    on_advance: RunnerResponse,
    attempts: u32,
) -> Transition {
    let (s2, is_last) = complete_step_spec(s, order as u32);
    (Ok(if is_last { RunnerResponse::LessonComplete } else { on_advance }), s2, attempts)
}

/// Advance past a non-interactive step.
pub open spec fn advance_spec(s: LessonState, steps: Seq<StepContent>, attempts: u32) -> Transition {
    let order = next_order(s.last_completed_step_order);
    if order >= steps.len() {
        (Err(out_of_range(order, steps.len() as int)), s, attempts)
    } else if steps[order].kind is Exercise {
        (Err(EngineError::InvalidAnswer), s, attempts)
    } else {
        complete_and_respond(s, order, RunnerResponse::StepAdvanced { new_order: (order + 1) as u32 }, attempts)
    }
}

/// Submit an answer to the current exercise step.
pub open spec fn answer_spec(
    s: LessonState,
    steps: Seq<StepContent>,
    attempts: u32,
    answer: ExerciseAnswer,
) -> Transition {
    let order = next_order(s.last_completed_step_order);
    if order >= steps.len() {
        (Err(out_of_range(order, steps.len() as int)), s, attempts)
    } else {
        match steps[order].kind {
            StepKind::Exercise(spec) => {
                let max = match max_attempts_spec(spec.kind) {
                    Some(m) => m,
                    None => u32::MAX,
                };
                let used = (attempts + 1) as u32;
                match eval_spec(spec.kind, answer) {
                    None => (Err(EngineError::InvalidAnswer), s, used),
                    Some(EvalResult::Correct) => complete_and_respond(
                        s,
                        order,
                        RunnerResponse::AnswerCorrect { new_order: (order + 1) as u32 },
                        0,
                    ),
                    Some(_) => if used >= max {
                        complete_and_respond(
                            s,
                            order,
                            RunnerResponse::MaxAttemptsReached { new_order: (order + 1) as u32 },
                            0,
                        )
                    } else {
                        (Ok(RunnerResponse::AnswerIncorrect { attempts_used: used, max_attempts: max }), s, used)
                    },
                }
            },
            _ => (Err(EngineError::InvalidAnswer), s, attempts),
        }
    }
}

/// Move back one step.
pub open spec fn back_spec(s: LessonState, attempts: u32) -> Transition {
    let order = next_order(s.last_completed_step_order);
    if order == 0 {
        (Ok(RunnerResponse::AtFirstStep), s, attempts)
    } else {
        let prev = order - 1;
        (
            Ok(RunnerResponse::StepBack { new_order: prev as u32 }),
            LessonState {
                last_completed_step_order: if prev == 0 { None } else { Some((prev - 1) as u32) },
                ..s
            },
            0,
        )
    }
}

/// The full transition function of the runner.
pub open spec fn handle_spec(
    s: LessonState,
    steps: Seq<StepContent>,
    attempts: u32,
    event: RunnerEvent,
) -> Transition {
    if s.status == LessonStateStatus::Completed {
        (Ok(RunnerResponse::LessonComplete), s, attempts)
    } else {
        match event {
            RunnerEvent::Advance => advance_spec(s, steps, attempts),
            RunnerEvent::Answer(a) => answer_spec(s, steps, attempts, a),
            RunnerEvent::Back => back_spec(s, attempts),
        }
    }
}

/// A completed lesson absorbs every event: the runner answers
/// `LessonComplete` and nothing changes.
pub proof fn lemma_completed_lesson_absorbs(
    s: LessonState,
    steps: Seq<StepContent>,
    attempts: u32,
    event: RunnerEvent,
)
    requires
        s.status == LessonStateStatus::Completed,
    ensures
        handle_spec(s, steps, attempts, event) == (
            Ok::<RunnerResponse, EngineError>(RunnerResponse::LessonComplete),
            s,
            attempts,
        ),
{
}

/// Stepping back right after advancing past a step that was not the last
/// restores the lesson state exactly as it was before the advance.
pub proof fn lemma_back_undoes_advance(s: LessonState, steps: Seq<StepContent>, attempts: u32)
    requires
        next_order_fits(s),
        handle_spec(s, steps, attempts, RunnerEvent::Advance).0 matches Ok(
            RunnerResponse::StepAdvanced { .. },
        ),
    ensures
        ({
            let (_, s2, a2) = handle_spec(s, steps, attempts, RunnerEvent::Advance);
            handle_spec(s2, steps, a2, RunnerEvent::Back) == (
                Ok::<RunnerResponse, EngineError>(
                    RunnerResponse::StepBack {
                        new_order: next_order(s.last_completed_step_order) as u32,
                    },
                ),
                s,
                0u32,
            )
        }),
{
    let (_, s2, a2) = handle_spec(s, steps, attempts, RunnerEvent::Advance);
    assert(s.status != LessonStateStatus::Completed);
    let order = next_order(s.last_completed_step_order);
    assert(s2.last_completed_step_order == Some(order as u32));
    assert(s2.status == s.status);
    let (_, s3, _) = handle_spec(s2, steps, a2, RunnerEvent::Back);
    assert(s3 =~= s);
}

/// Advancing never skips an exercise step, and an incorrect answer below the
/// attempt limit keeps the learner on the same step: in both cases the lesson
/// state is unchanged.
pub proof fn lemma_exercise_steps_hold_position(
    s: LessonState,
    steps: Seq<StepContent>,
    attempts: u32,
    answer: ExerciseAnswer,
)
    requires
        s.status == LessonStateStatus::InProgress,
    ensures
        ({
            let order = next_order(s.last_completed_step_order);
            0 <= order < steps.len() && steps[order].kind is Exercise
                ==> handle_spec(s, steps, attempts, RunnerEvent::Advance) == (
                    Err::<RunnerResponse, EngineError>(EngineError::InvalidAnswer),
                    s,
                    attempts,
                )
        }),
        ({
            let (r, s2, _) = handle_spec(s, steps, attempts, RunnerEvent::Answer(answer));
            r matches Ok(RunnerResponse::AnswerIncorrect { attempts_used, max_attempts })
                ==> s2 == s && attempts_used < max_attempts
        }),
{
}

/// An answer that the exercise being shown judges but does not accept
/// (incorrect, or only partly right) uses one more attempt. Below the
/// exercise's attempt limit the runner answers `AnswerIncorrect` with the
/// attempts used and the limit, and the lesson state stays as it was. The
/// attempt that reaches the limit completes the step and moves on:
/// `MaxAttemptsReached` with the next step, or `LessonComplete` when that was
/// the last step; the counter then starts again from zero.
pub proof fn lemma_rejected_answer(
    s: LessonState,
    steps: Seq<StepContent>,
    attempts: u32,
    answer: ExerciseAnswer,
    spec: ExerciseSpec,
)
    requires
        s.status == LessonStateStatus::InProgress,
        next_order_fits(s),
        attempts < u32::MAX,
        next_order(s.last_completed_step_order) < steps.len(),
        steps[next_order(s.last_completed_step_order)].kind == StepKind::Exercise(spec),
        eval_spec(spec.kind, answer) is Some,
        eval_spec(spec.kind, answer) != Some(EvalResult::Correct),
    ensures
        ({
            let k = next_order(s.last_completed_step_order);
            let m = max_attempts_spec(spec.kind).unwrap();
            let (r, s2, a2) = handle_spec(s, steps, attempts, RunnerEvent::Answer(answer));
            if attempts + 1 < m {
                &&& r == Ok::<RunnerResponse, EngineError>(
                    RunnerResponse::AnswerIncorrect {
                        attempts_used: (attempts + 1) as u32,
                        max_attempts: m,
                    },
                )
                &&& s2 == s
                &&& a2 == attempts + 1
            } else {
                &&& r == Ok::<RunnerResponse, EngineError>(
                    if k + 1 >= s.total_steps {
                        RunnerResponse::LessonComplete
                    } else {
                        RunnerResponse::MaxAttemptsReached { new_order: (k + 1) as u32 }
                    },
                )
                &&& s2.last_completed_step_order == Some(k as u32)
                &&& s2.status == (if k + 1 >= s.total_steps {
                    LessonStateStatus::Completed
                } else {
                    LessonStateStatus::InProgress
                })
                &&& s2 == LessonState {
                    last_completed_step_order: s2.last_completed_step_order,
                    status: s2.status,
                    ..s
                }
                &&& a2 == 0
            }
        }),
{
}

/// A correct answer to the exercise being shown completes that step, whether
/// or not it was the last: the last completed step becomes its order, so the
/// step to present next is the one after it, and the attempt counter starts
/// again from zero. The runner answers `AnswerCorrect` with that next step,
/// or `LessonComplete` when the answered step was the last one; only then does
/// the lesson's status become completed. Nothing else in the lesson state
/// changes.
pub proof fn lemma_correct_answer_completes_step(
    s: LessonState,
    steps: Seq<StepContent>,
    attempts: u32,
    answer: ExerciseAnswer,
    spec: ExerciseSpec,
)
    requires
        s.status == LessonStateStatus::InProgress,
        next_order_fits(s),
        attempts < u32::MAX,
        next_order(s.last_completed_step_order) < steps.len(),
        steps[next_order(s.last_completed_step_order)].kind == StepKind::Exercise(spec),
        eval_spec(spec.kind, answer) == Some(EvalResult::Correct),
    ensures
        ({
            let k = next_order(s.last_completed_step_order);
            let (r, s2, a2) = handle_spec(s, steps, attempts, RunnerEvent::Answer(answer));
            &&& r == Ok::<RunnerResponse, EngineError>(
                if k + 1 >= s.total_steps {
                    RunnerResponse::LessonComplete
                } else {
                    RunnerResponse::AnswerCorrect { new_order: (k + 1) as u32 }
                },
            )
            &&& s2.last_completed_step_order == Some(k as u32)
            &&& next_order(s2.last_completed_step_order) == k + 1
            &&& s2.status == (if k + 1 >= s.total_steps {
                LessonStateStatus::Completed
            } else {
                LessonStateStatus::InProgress
            })
            &&& s2.profile_id == s.profile_id
            &&& s2.lesson_id == s.lesson_id
            &&& s2.total_steps == s.total_steps
            &&& s2.started_at == s.started_at
            &&& a2 == 0
        }),
{
}

/// Advancing past a step that is not an exercise completes it, whether or
/// not it was the last: the step after it becomes the one to present, and the
/// runner answers `StepAdvanced` with it, or `LessonComplete` after the last
/// step. Nothing else in the lesson state changes and the attempt counter is
/// left as it was.
pub proof fn lemma_advance_completes_step(s: LessonState, steps: Seq<StepContent>, attempts: u32)
    requires
        s.status == LessonStateStatus::InProgress,
        next_order_fits(s),
        next_order(s.last_completed_step_order) < steps.len(),
        !(steps[next_order(s.last_completed_step_order)].kind is Exercise),
    ensures
        ({
            let k = next_order(s.last_completed_step_order);
            let (r, s2, a2) = handle_spec(s, steps, attempts, RunnerEvent::Advance);
            &&& r == Ok::<RunnerResponse, EngineError>(
                if k + 1 >= s.total_steps {
                    RunnerResponse::LessonComplete
                } else {
                    RunnerResponse::StepAdvanced { new_order: (k + 1) as u32 }
                },
            )
            &&& s2.last_completed_step_order == Some(k as u32)
            &&& next_order(s2.last_completed_step_order) == k + 1
            &&& s2.status == (if k + 1 >= s.total_steps {
                LessonStateStatus::Completed
            } else {
                LessonStateStatus::InProgress
            })
            &&& s2.profile_id == s.profile_id
            &&& s2.lesson_id == s.lesson_id
            &&& s2.total_steps == s.total_steps
            &&& s2.started_at == s.started_at
            &&& a2 == attempts
        }),
{
}

/// What the runner refuses, and that a refusal never moves the learner. Past
/// the last step, advancing and answering report the step as out of range.
/// An answer to a step that is not an exercise is invalid. An answer of
/// another kind than the exercise shown is invalid too, and still counts as
/// an attempt. In every such case the lesson state is left as it was.
pub proof fn lemma_refusals_keep_position(
    s: LessonState,
    steps: Seq<StepContent>,
    attempts: u32,
    answer: ExerciseAnswer,
)
    requires
        s.status == LessonStateStatus::InProgress,
        next_order_fits(s),
        attempts < u32::MAX,
    ensures
        ({
            let k = next_order(s.last_completed_step_order);
            let (ra, sa, aa) = handle_spec(s, steps, attempts, RunnerEvent::Advance);
            let (rn, sn, an) = handle_spec(s, steps, attempts, RunnerEvent::Answer(answer));
            &&& k >= steps.len() ==> {
                &&& ra == Err::<RunnerResponse, EngineError>(
                    EngineError::StepOutOfRange { index: k as usize, len: steps.len() as usize },
                )
                &&& rn == ra
                &&& sa == s && sn == s
                &&& aa == attempts && an == attempts
            }
            &&& k < steps.len() && !(steps[k].kind is Exercise) ==> {
                &&& rn == Err::<RunnerResponse, EngineError>(EngineError::InvalidAnswer)
                &&& sn == s
                &&& an == attempts
            }
            &&& k < steps.len() ==> (steps[k].kind matches StepKind::Exercise(spec)
                && eval_spec(spec.kind, answer) is None ==> {
                &&& rn == Err::<RunnerResponse, EngineError>(EngineError::InvalidAnswer)
                &&& sn == s
                &&& an == attempts + 1
            })
        }),
{
}

/// Stepping back in an active lesson: at the first step the runner answers
/// `AtFirstStep` and nothing changes; otherwise it answers `StepBack` with the
/// previous step, which becomes the step to present next, the attempt counter
/// starts again from zero, and nothing else in the lesson state changes.
pub proof fn lemma_back_steps_once(s: LessonState, steps: Seq<StepContent>, attempts: u32)
    requires
        s.status == LessonStateStatus::InProgress,
        next_order_fits(s),
    ensures
        ({
            let k = next_order(s.last_completed_step_order);
            let (r, s2, a2) = handle_spec(s, steps, attempts, RunnerEvent::Back);
            if k == 0 {
                &&& r == Ok::<RunnerResponse, EngineError>(RunnerResponse::AtFirstStep)
                &&& s2 == s
                &&& a2 == attempts
            } else {
                &&& r == Ok::<RunnerResponse, EngineError>(
                    RunnerResponse::StepBack { new_order: (k - 1) as u32 },
                )
                &&& next_order(s2.last_completed_step_order) == k - 1
                &&& s2 == LessonState { last_completed_step_order: s2.last_completed_step_order, ..s }
                &&& a2 == 0
            }
        }),
{
}

/// The attempt counter only ever counts answers to the exercise step being
/// shown: it is zero unless the step to present next is an exercise.
pub open spec fn attempts_on_exercise(s: LessonState, steps: Seq<StepContent>, attempts: u32) -> bool {
    attempts == 0 || ({
        let order = next_order(s.last_completed_step_order);
        0 <= order < steps.len() && steps[order].kind is Exercise
    })
}

/// Every event keeps the learner inside the lesson and keeps the attempt
/// counter tied to the exercise being shown: when the step to present next is
/// at most one past the last step, it still is after the event; and whenever
/// the position changes, the counter starts again from zero.
pub proof fn lemma_handle_stays_in_lesson(
    s: LessonState,
    steps: Seq<StepContent>,
    attempts: u32,
    event: RunnerEvent,
)
    requires
        next_order(s.last_completed_step_order) <= steps.len(),
        attempts_on_exercise(s, steps, attempts),
    ensures
        ({
            let (_, s2, a2) = handle_spec(s, steps, attempts, event);
            &&& next_order(s2.last_completed_step_order) <= steps.len()
            &&& attempts_on_exercise(s2, steps, a2)
            &&& s2.last_completed_step_order != s.last_completed_step_order ==> a2 == 0
        }),
{
}

/// When the runner can take an event without overflowing its counters.
pub open spec fn can_handle(s: LessonState, attempts: u32) -> bool {
    s.status == LessonStateStatus::Completed || (next_order_fits(s) && attempts < u32::MAX)
}

/// Active lesson runner.
pub struct LessonRunner {
    pub state: LessonState,
    /// The lesson steps, in order.
    pub steps: Vec<StepContent>,
    /// Attempts on the current exercise step (reset on advance).
    pub current_attempts: u32,
}

impl LessonRunner {
    /// The lesson state: the value that callers persist after each event.
    pub open spec fn lesson_state(&self) -> LessonState {
        self.state
    }

    /// The lesson steps.
    pub open spec fn steps_view(&self) -> Seq<StepContent> {
        self.steps@
    }

    /// Attempts used on the current exercise step.
    pub open spec fn attempts(&self) -> u32 {
        self.current_attempts
    }

    /// Create a new runner, restoring from an existing [`LessonState`] if provided.
    pub fn new(state: LessonState, steps: Vec<StepContent>) -> (r: Self)
        ensures
            r.lesson_state() == state,
            r.steps_view() == steps@,
            r.attempts() == 0,
    {
        LessonRunner { state, steps, current_attempts: 0 }
    }

    /// The current step index (zero-based).
    pub fn current_order(&self) -> (r: u32)
        requires
            next_order_fits(self.lesson_state()),
        ensures
            r == next_order(self.lesson_state().last_completed_step_order),
    {
        self.state.next_step_order()
    }

    /// The step currently being displayed (immutable view).
    pub fn current_step(&self) -> (r: EngineResult<&StepContent>)
        requires
            next_order_fits(self.lesson_state()),
        ensures
            ({
                let order = next_order(self.lesson_state().last_completed_step_order);
                match r {
                    Ok(step) => order < self.steps_view().len() && *step == self.steps_view()[order],
                    Err(e) => order >= self.steps_view().len()
                        && e == out_of_range(order, self.steps_view().len() as int),
                }
            }),
    {
        let order = self.current_order() as usize;
        if order < self.steps.len() {
            Ok(&self.steps[order])
        } else {
            Err(EngineError::StepOutOfRange { index: order, len: self.steps.len() })
        }
    }

    /// Total number of steps in this lesson.
    pub fn total_steps(&self) -> (r: u32)
        ensures
            r == self.steps_view().len() as u32,
    {
        self.steps.len() as u32
    }

    /// Process a runner event and return how the state changed.
    pub fn handle(&mut self, event: RunnerEvent) -> (r: EngineResult<RunnerResponse>)
        requires
            can_handle(old(self).lesson_state(), old(self).attempts()),
        ensures
            (r, final(self).lesson_state(), final(self).attempts()) == handle_spec(
                old(self).lesson_state(),
                old(self).steps_view(),
                old(self).attempts(),
                event,
            ),
            final(self).steps_view() == old(self).steps_view(),
    {
        if self.state.status == LessonStateStatus::Completed {
            return Ok(RunnerResponse::LessonComplete);
        }
        match event {
            RunnerEvent::Advance => self.do_advance(),
            RunnerEvent::Answer(answer) => self.do_answer(answer),
            RunnerEvent::Back => self.do_back(),
        }
    }

    fn do_advance(&mut self) -> (r: EngineResult<RunnerResponse>)
        requires
            next_order_fits(old(self).state),
        ensures
            (r, final(self).state, final(self).current_attempts) == advance_spec(
                old(self).state,
                old(self).steps@,
                old(self).current_attempts,
            ),
            final(self).steps@ == old(self).steps@,
    {
        let order = self.current_order();
        if order as usize >= self.steps.len() {
            return Err(EngineError::StepOutOfRange { index: order as usize, len: self.steps.len() });
        }
        // Exercises must be answered, not advanced past.
        if let StepKind::Exercise(_) = &self.steps[order as usize].kind {
            return Err(EngineError::InvalidAnswer);
        }
        self.complete_current_step(order)
    }

    fn do_answer(&mut self, answer: ExerciseAnswer) -> (r: EngineResult<RunnerResponse>)
        requires
            next_order_fits(old(self).state),
            old(self).current_attempts < u32::MAX,
        ensures
            (r, final(self).state, final(self).current_attempts) == answer_spec(
                old(self).state,
                old(self).steps@,
                old(self).current_attempts,
                answer,
            ),
            final(self).steps@ == old(self).steps@,
    {
        let order = self.current_order();
        if order as usize >= self.steps.len() {
            return Err(EngineError::StepOutOfRange { index: order as usize, len: self.steps.len() });
        }
        let (max, outcome) = match &self.steps[order as usize].kind {
            StepKind::Exercise(spec) => {
                let max = match max_attempts(spec) {
                    Some(m) => m,
                    None => u32::MAX,
                };
                (max, evaluate(spec, &answer))
            },
            _ => {
                return Err(EngineError::InvalidAnswer);
            },
        };
        self.current_attempts = self.current_attempts + 1;
        match outcome {
            Err(e) => Err(e),
            Ok(EvalResult::Correct) => {
                self.current_attempts = 0;
                match self.complete_current_step(order) {
                    Ok(RunnerResponse::StepAdvanced { new_order }) => Ok(
                        RunnerResponse::AnswerCorrect { new_order },
                    ),
                    other => other,
                }
            },
            Ok(_) => {
                let attempts = self.current_attempts;
                if attempts >= max {
                    self.current_attempts = 0;
                    match self.complete_current_step(order) {
                        Ok(RunnerResponse::StepAdvanced { new_order }) => Ok(
                            RunnerResponse::MaxAttemptsReached { new_order },
                        ),
                        other => other,
                    }
                } else {
                    Ok(RunnerResponse::AnswerIncorrect { attempts_used: attempts, max_attempts: max })
                }
            },
        }
    }

    fn do_back(&mut self) -> (r: EngineResult<RunnerResponse>)
        requires
            next_order_fits(old(self).state),
        ensures
            (r, final(self).state, final(self).current_attempts) == back_spec(
                old(self).state,
                old(self).current_attempts,
            ),
            final(self).steps@ == old(self).steps@,
    {
        let order = self.current_order();
        if order == 0 {
            return Ok(RunnerResponse::AtFirstStep);
        }
        // Move back by unwinding last_completed_step_order.
        let prev_order = order - 1;
        self.state.last_completed_step_order = if prev_order == 0 {
            None
        } else {
            Some(prev_order - 1)
        };
        self.current_attempts = 0;
        Ok(RunnerResponse::StepBack { new_order: prev_order })
    }

    fn complete_current_step(&mut self, order: u32) -> (r: EngineResult<RunnerResponse>)
        requires
            (order as int) < old(self).steps@.len(),
        ensures
            (r, final(self).state, final(self).current_attempts) == complete_and_respond(
                old(self).state,
                order as int,
                RunnerResponse::StepAdvanced { new_order: (order + 1) as u32 },
                old(self).current_attempts,
            ),
            final(self).steps@ == old(self).steps@,
    {
        let is_last = self.state.complete_step(order);
        if is_last {
            Ok(RunnerResponse::LessonComplete)
        } else {
            Ok(RunnerResponse::StepAdvanced { new_order: order + 1 })
        }
    }
}

} // verus!
