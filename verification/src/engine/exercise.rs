//! Exercise evaluation: check answers without storing sensitive user responses.
//!
//! Correct/incorrect is stored; the actual answer given by the user is not.

use vstd::prelude::*;

use crate::engine::error::{EngineError, EngineResult};
use crate::engine::step::{ExerciseKind, ExerciseSpec};
use crate::text::{strings_eq, strings_view};

verus! {

/// The learner's response to an exercise step.
#[derive(Debug, Clone)]
pub enum ExerciseAnswer {
    /// The ID of the chosen option.
    MultipleChoice { chosen_option_id: String },
    /// Item IDs in the order the learner arranged them.
    ItemOrder { arranged_ids: Vec<String> },
    /// Acknowledgement tap.
    Acknowledge,
}

/// Result of evaluating an exercise answer.
#[derive(Debug, Clone, Copy, PartialEq, Eq, Structural)]
pub enum EvalResult {
    Correct,
    Incorrect,
    /// For exercises with partial scoring (future extension).
    Partial,
}

/// The outcome of evaluating `answer` against an exercise of kind `kind`;
/// `None` when the answer does not fit the exercise kind.
pub open spec fn eval_spec(kind: ExerciseKind, answer: ExerciseAnswer) -> Option<EvalResult> {
    match kind {
        ExerciseKind::MultipleChoice { correct_option_id, .. } => match answer {
            ExerciseAnswer::MultipleChoice { chosen_option_id } => Some(
                if chosen_option_id@ == correct_option_id@ {
                    EvalResult::Correct
                } else {
                    EvalResult::Incorrect
                },
            ),
            _ => None,
        },
        ExerciseKind::ItemOrder { correct_order, .. } => match answer {
            ExerciseAnswer::ItemOrder { arranged_ids } => Some(
                if strings_view(arranged_ids@) == strings_view(correct_order@) {
                    EvalResult::Correct
                } else {
                    EvalResult::Incorrect
                },
            ),
            _ => None,
        },
        ExerciseKind::Acknowledge { .. } => match answer {
            ExerciseAnswer::Acknowledge => Some(EvalResult::Correct),
            _ => None,
        },
    }
}

/// How answers are judged. A multiple-choice answer is correct exactly when
/// the chosen option id is the correct option id. An item-ordering answer is
/// correct exactly when it lists as many ids as the correct order and the same
/// id at every position; any other arrangement is incorrect. An
/// acknowledgement is always correct. An answer of another kind than the
/// exercise is refused. No answer is ever judged partly right. An
/// acknowledgement allows one attempt, every other exercise three.
pub proof fn lemma_answers_judged(kind: ExerciseKind, answer: ExerciseAnswer)
    ensures
        kind matches ExerciseKind::MultipleChoice { correct_option_id, .. } ==> (
            answer matches ExerciseAnswer::MultipleChoice { chosen_option_id } ==> (
                (eval_spec(kind, answer) == Some(EvalResult::Correct)
                    <==> chosen_option_id@ == correct_option_id@)
                && (eval_spec(kind, answer) == Some(EvalResult::Incorrect)
                    <==> chosen_option_id@ != correct_option_id@)
            )
        ),
        kind matches ExerciseKind::ItemOrder { correct_order, .. } ==> (
            answer matches ExerciseAnswer::ItemOrder { arranged_ids } ==> (
                (eval_spec(kind, answer) == Some(EvalResult::Correct) <==> (
                    arranged_ids@.len() == correct_order@.len()
                    && forall|i: int| 0 <= i < arranged_ids@.len()
                        ==> #[trigger] arranged_ids@[i]@ == correct_order@[i]@
                ))
                && (eval_spec(kind, answer) == Some(EvalResult::Incorrect) <==> !(
                    arranged_ids@.len() == correct_order@.len()
                    && forall|i: int| 0 <= i < arranged_ids@.len()
                        ==> #[trigger] arranged_ids@[i]@ == correct_order@[i]@
                ))
            )
        ),
        kind is Acknowledge && answer is Acknowledge ==> eval_spec(kind, answer) == Some(EvalResult::Correct),
        (kind is MultipleChoice) != (answer is MultipleChoice) || (kind is ItemOrder) != (answer is ItemOrder)
            ==> eval_spec(kind, answer) is None,
        eval_spec(kind, answer) != Some(EvalResult::Partial),
        max_attempts_spec(kind) == Some(if kind is Acknowledge { 1u32 } else { 3u32 }),
{
    match kind {
        ExerciseKind::ItemOrder { correct_order, .. } => match answer {
            ExerciseAnswer::ItemOrder { arranged_ids } => {
                let a = strings_view(arranged_ids@);
                let c = strings_view(correct_order@);
                if arranged_ids@.len() == correct_order@.len()
                    && forall|i: int| 0 <= i < arranged_ids@.len()
                        ==> #[trigger] arranged_ids@[i]@ == correct_order@[i]@ {
                    assert(a =~= c);
                } else if a == c {
                    assert(arranged_ids@.len() == a.len());
                    assert forall|i: int| 0 <= i < arranged_ids@.len()
                        implies #[trigger] arranged_ids@[i]@ == correct_order@[i]@ by {
                        assert(a[i] == c[i]);
                    }
                }
            },
            _ => {},
        },
        _ => {},
    }
}

/// The attempt limit of an exercise kind.
pub open spec fn max_attempts_spec(kind: ExerciseKind) -> Option<u32> {
    match kind {
        ExerciseKind::Acknowledge { .. } => Some(1u32),
        ExerciseKind::MultipleChoice { .. } => Some(3u32),
        ExerciseKind::ItemOrder { .. } => Some(3u32),
    }
}

/// Evaluate a learner's answer against the exercise specification.
///
/// Intentionally does not store what the learner answered — only whether
/// they were correct.
pub fn evaluate(spec: &ExerciseSpec, answer: &ExerciseAnswer) -> (r: EngineResult<EvalResult>)
    ensures
        match r {
            Ok(e) => eval_spec(spec.kind, *answer) == Some(e),
            Err(e) => eval_spec(spec.kind, *answer) is None && e is InvalidAnswer,
        },
{
    match &spec.kind {
        ExerciseKind::MultipleChoice { correct_option_id, .. } => match answer {
            ExerciseAnswer::MultipleChoice { chosen_option_id } => {
                if *chosen_option_id == *correct_option_id {
                    Ok(EvalResult::Correct)
                } else {
                    Ok(EvalResult::Incorrect)
                }
            },
            _ => Err(EngineError::InvalidAnswer),
        },
        ExerciseKind::ItemOrder { correct_order, .. } => match answer {
            ExerciseAnswer::ItemOrder { arranged_ids } => {
                if strings_eq(arranged_ids, correct_order) {
                    Ok(EvalResult::Correct)
                } else {
                    Ok(EvalResult::Incorrect)
                }
            },
            _ => Err(EngineError::InvalidAnswer),
        },
        ExerciseKind::Acknowledge { .. } => match answer {
            ExerciseAnswer::Acknowledge => Ok(EvalResult::Correct),
            _ => Err(EngineError::InvalidAnswer),
        },
    }
}

/// The number of attempts an exercise allows before auto-advancing.
///
/// Acknowledge steps are always immediately correct. Multiple-choice and
/// ordering allow up to 3 attempts (displayed via UI feedback only).
pub fn max_attempts(spec: &ExerciseSpec) -> (r: Option<u32>)
    ensures
        r == max_attempts_spec(spec.kind),
{
    match &spec.kind {
        ExerciseKind::Acknowledge { .. } => Some(1),
        ExerciseKind::MultipleChoice { .. } => Some(3),
        ExerciseKind::ItemOrder { .. } => Some(3),
    }
}

} // verus!
