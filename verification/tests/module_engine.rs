use taktakk::domain::{CurriculumAxis, Module, ModuleStatus, ModuleVersion};
use taktakk::engine::error::EngineError;
use taktakk::engine::catalog::{build_tile, DashboardView, ModuleTile, ProgressBadge};
use taktakk::engine::exercise::{evaluate, max_attempts, EvalResult, ExerciseAnswer};
use taktakk::engine::runner::{LessonRunner, RunnerEvent, RunnerResponse};
use taktakk::engine::state::{LessonState, LessonStateStatus};
use taktakk::engine::step::{ExerciseKind, ExerciseSpec, StepContent, StepKind};

// ── Helpers ───────────────────────────────────────────────────────────────────

fn text_step(id: &str, order: u32) -> StepContent {
    StepContent {
        step_id: id.to_string(),
        sort_order: order,
        kind: StepKind::Text { text_key: format!("step.{id}.text") },
        caption_key: None,
        audio_object_hash: None,
        aria_label_key: None,
    }
}

fn mc_step(id: &str, order: u32, correct: &str, opts: &[&str]) -> StepContent {
    StepContent {
        step_id: id.to_string(),
        sort_order: order,
        kind: StepKind::Exercise(ExerciseSpec {
            exercise_id: format!("ex-{id}"),
            kind: ExerciseKind::MultipleChoice {
                question_key: "q".to_string(),
                options: opts.iter().map(|o| (o.to_string(), o.to_string())).collect(),
                correct_option_id: correct.to_string(),
            },
        }),
        caption_key: None,
        audio_object_hash: None,
        aria_label_key: None,
    }
}

fn ack_step(id: &str, order: u32) -> StepContent {
    StepContent {
        step_id: id.to_string(),
        sort_order: order,
        kind: StepKind::Exercise(ExerciseSpec {
            exercise_id: format!("ack-{id}"),
            kind: ExerciseKind::Acknowledge { confirm_key: "ok".to_string() },
        }),
        caption_key: None,
        audio_object_hash: None,
        aria_label_key: None,
    }
}

fn make_runner(steps: Vec<StepContent>, now: i64) -> LessonRunner {
    let total = steps.len() as u32;
    let state = LessonState::new("p1".to_string(), "lesson-01".to_string(), total, now);
    LessonRunner::new(state, steps)
}

fn fraction_of(s: &LessonState) -> f32 {
    if s.total_steps == 0 {
        1.0
    } else {
        s.completed_count() as f32 / s.total_steps as f32
    }
}

// ── LessonState ───────────────────────────────────────────────────────────────

#[test]
fn state_initial_next_step_is_zero() {
    let s = LessonState::new("p1".to_string(), "l1".to_string(), 5, 0);
    assert_eq!(s.next_step_order(), 0);
    assert_eq!(s.completed_count(), 0);
    assert!((fraction_of(&s)).abs() < f32::EPSILON);
}

#[test]
fn state_complete_step_advances() {
    let mut s = LessonState::new("p1".to_string(), "l1".to_string(), 5, 0);
    let last = s.complete_step(0);
    assert!(!last);
    assert_eq!(s.next_step_order(), 1);
    assert_eq!(s.completed_count(), 1);
}

#[test]
fn state_complete_last_step_marks_done() {
    let mut s = LessonState::new("p1".to_string(), "l1".to_string(), 3, 0);
    s.complete_step(0);
    s.complete_step(1);
    let last = s.complete_step(2);
    assert!(last);
    assert_eq!(s.status, LessonStateStatus::Completed);
    assert!((fraction_of(&s) - 1.0).abs() < f32::EPSILON);
}

#[test]
fn state_progress_fraction_midway() {
    let mut s = LessonState::new("p1".to_string(), "l1".to_string(), 4, 0);
    s.complete_step(0);
    s.complete_step(1);
    let expected = 2.0 / 4.0;
    assert!((fraction_of(&s) - expected).abs() < f32::EPSILON);
}

#[test]
fn state_complete_step_out_of_order_resumes_after_it() {
    let mut s = LessonState::new("p1".to_string(), "l1".to_string(), 10, 7);
    assert!(!s.complete_step(4));
    assert_eq!(s.next_step_order(), 5);
    assert_eq!(s.status, LessonStateStatus::InProgress);
    assert_eq!(s.started_at, 7);
}

#[test]
fn state_empty_lesson_completes_on_first_step() {
    let mut s = LessonState::new("p1".to_string(), "l1".to_string(), 0, 0);
    assert!(s.complete_step(0));
    assert_eq!(s.status, LessonStateStatus::Completed);
}

// ── Exercise evaluation ───────────────────────────────────────────────────────

fn mc_spec(correct: &str, options: &[&str]) -> ExerciseSpec {
    ExerciseSpec {
        exercise_id: "ex-1".to_string(),
        kind: ExerciseKind::MultipleChoice {
            question_key: "q".to_string(),
            options: options.iter().map(|o| (o.to_string(), o.to_string())).collect(),
            correct_option_id: correct.to_string(),
        },
    }
}

fn order_spec() -> ExerciseSpec {
    ExerciseSpec {
        exercise_id: "ord".to_string(),
        kind: ExerciseKind::ItemOrder {
            prompt_key: "p".to_string(),
            items: vec![("A".to_string(), "a".to_string()), ("B".to_string(), "b".to_string())],
            correct_order: vec!["A".to_string(), "B".to_string()],
        },
    }
}

#[test]
fn exercise_correct_multiple_choice() {
    let spec = mc_spec("B", &["A", "B", "C"]);
    let ans = ExerciseAnswer::MultipleChoice { chosen_option_id: "B".to_string() };
    assert_eq!(evaluate(&spec, &ans).unwrap(), EvalResult::Correct);
}

#[test]
fn exercise_incorrect_multiple_choice() {
    let spec = mc_spec("B", &["A", "B", "C"]);
    let ans = ExerciseAnswer::MultipleChoice { chosen_option_id: "A".to_string() };
    assert_eq!(evaluate(&spec, &ans).unwrap(), EvalResult::Incorrect);
}

#[test]
fn exercise_ordering_correct() {
    let spec = order_spec();
    let ans = ExerciseAnswer::ItemOrder { arranged_ids: vec!["A".to_string(), "B".to_string()] };
    assert_eq!(evaluate(&spec, &ans).unwrap(), EvalResult::Correct);
}

#[test]
fn exercise_ordering_wrong_order() {
    let spec = order_spec();
    let ans = ExerciseAnswer::ItemOrder { arranged_ids: vec!["B".to_string(), "A".to_string()] };
    assert_eq!(evaluate(&spec, &ans).unwrap(), EvalResult::Incorrect);
}

#[test]
fn exercise_ordering_short_arrangement_is_incorrect() {
    let spec = order_spec();
    let ans = ExerciseAnswer::ItemOrder { arranged_ids: vec!["A".to_string()] };
    assert_eq!(evaluate(&spec, &ans).unwrap(), EvalResult::Incorrect);
}

#[test]
fn exercise_acknowledge_always_correct() {
    let spec = ExerciseSpec {
        exercise_id: "ack".to_string(),
        kind: ExerciseKind::Acknowledge { confirm_key: "ok".to_string() },
    };
    assert_eq!(evaluate(&spec, &ExerciseAnswer::Acknowledge).unwrap(), EvalResult::Correct);
}

#[test]
fn exercise_type_mismatch_returns_error() {
    let spec = mc_spec("A", &["A", "B"]);
    let ans = ExerciseAnswer::Acknowledge;
    assert!(evaluate(&spec, &ans).is_err());
}

#[test]
fn exercise_order_answer_to_choice_is_error() {
    let spec = mc_spec("A", &["A", "B"]);
    let ans = ExerciseAnswer::ItemOrder { arranged_ids: vec!["A".to_string()] };
    assert!(evaluate(&spec, &ans).is_err());
}

#[test]
fn max_attempts_mc_is_three() {
    let spec = mc_spec("A", &["A", "B"]);
    assert_eq!(max_attempts(&spec), Some(3));
}

#[test]
fn max_attempts_by_kind() {
    assert_eq!(max_attempts(&order_spec()), Some(3));
    let ack = ExerciseSpec {
        exercise_id: "ack".to_string(),
        kind: ExerciseKind::Acknowledge { confirm_key: "ok".to_string() },
    };
    assert_eq!(max_attempts(&ack), Some(1));
}

// ── LessonRunner ──────────────────────────────────────────────────────────────

#[test]
fn runner_advance_text_steps_sequentially() {
    let mut r = make_runner(vec![text_step("s0", 0), text_step("s1", 1), text_step("s2", 2)], 0);
    let r1 = r.handle(RunnerEvent::Advance).unwrap();
    assert_eq!(r1, RunnerResponse::StepAdvanced { new_order: 1 });
    let r2 = r.handle(RunnerEvent::Advance).unwrap();
    assert_eq!(r2, RunnerResponse::StepAdvanced { new_order: 2 });
    let r3 = r.handle(RunnerEvent::Advance).unwrap();
    assert_eq!(r3, RunnerResponse::LessonComplete);
}

#[test]
fn runner_single_step_lesson_completes_immediately() {
    let mut r = make_runner(vec![text_step("s0", 0)], 0);
    assert_eq!(r.handle(RunnerEvent::Advance).unwrap(), RunnerResponse::LessonComplete);
}

#[test]
fn runner_correct_answer_advances() {
    let mut r = make_runner(vec![mc_step("s0", 0, "B", &["A", "B", "C"])], 0);
    let resp = r
        .handle(RunnerEvent::Answer(ExerciseAnswer::MultipleChoice { chosen_option_id: "B".to_string() }))
        .unwrap();
    assert_eq!(resp, RunnerResponse::LessonComplete);
}

#[test]
fn runner_wrong_answer_does_not_advance() {
    let mut r = make_runner(vec![mc_step("s0", 0, "B", &["A", "B", "C"]), text_step("s1", 1)], 0);
    let resp = r
        .handle(RunnerEvent::Answer(ExerciseAnswer::MultipleChoice { chosen_option_id: "A".to_string() }))
        .unwrap();
    assert!(matches!(resp, RunnerResponse::AnswerIncorrect { attempts_used: 1, max_attempts: 3 }));
    assert_eq!(r.current_order(), 0);
}

#[test]
fn runner_max_attempts_exhausted_auto_advances() {
    let mut r = make_runner(vec![mc_step("s0", 0, "B", &["A", "B"]), text_step("s1", 1)], 0);
    let wrong = || RunnerEvent::Answer(ExerciseAnswer::MultipleChoice { chosen_option_id: "A".to_string() });
    r.handle(wrong()).unwrap();
    r.handle(wrong()).unwrap();
    let resp = r.handle(wrong()).unwrap();
    assert!(matches!(resp, RunnerResponse::MaxAttemptsReached { new_order: 1 }));
}

#[test]
fn runner_back_at_first_step_returns_at_first() {
    let mut r = make_runner(vec![text_step("s0", 0)], 0);
    assert_eq!(r.handle(RunnerEvent::Back).unwrap(), RunnerResponse::AtFirstStep);
}

#[test]
fn runner_back_after_first_advance_returns_to_step_zero() {
    let mut r = make_runner(vec![text_step("s0", 0), text_step("s1", 1)], 0);
    r.handle(RunnerEvent::Advance).unwrap();
    let resp = r.handle(RunnerEvent::Back).unwrap();
    assert!(matches!(resp, RunnerResponse::StepBack { new_order: 0 }));
}

#[test]
fn runner_completed_lesson_returns_lesson_complete() {
    let mut r = make_runner(vec![text_step("s0", 0)], 0);
    r.handle(RunnerEvent::Advance).unwrap();
    assert_eq!(r.handle(RunnerEvent::Advance).unwrap(), RunnerResponse::LessonComplete);
}

#[test]
fn runner_completed_lesson_absorbs_every_event() {
    let mut r = make_runner(vec![text_step("s0", 0)], 0);
    r.handle(RunnerEvent::Advance).unwrap();
    assert_eq!(r.handle(RunnerEvent::Back).unwrap(), RunnerResponse::LessonComplete);
    assert_eq!(
        r.handle(RunnerEvent::Answer(ExerciseAnswer::Acknowledge)).unwrap(),
        RunnerResponse::LessonComplete
    );
}

#[test]
fn runner_acknowledge_step_completes_on_answer() {
    let mut r = make_runner(vec![ack_step("a0", 0), text_step("s1", 1)], 0);
    let resp = r.handle(RunnerEvent::Answer(ExerciseAnswer::Acknowledge)).unwrap();
    assert!(matches!(resp, RunnerResponse::AnswerCorrect { new_order: 1 }));
}

#[test]
fn runner_advance_on_exercise_step_returns_error() {
    let mut r = make_runner(vec![mc_step("s0", 0, "A", &["A", "B"])], 0);
    assert!(r.handle(RunnerEvent::Advance).is_err());
}

#[test]
fn runner_answer_on_text_step_returns_error() {
    let mut r = make_runner(vec![text_step("s0", 0), text_step("s1", 1)], 0);
    assert!(r.handle(RunnerEvent::Answer(ExerciseAnswer::Acknowledge)).is_err());
    assert_eq!(r.current_order(), 0);
}

#[test]
fn runner_restore_from_mid_lesson_state() {
    let steps = vec![text_step("s0", 0), text_step("s1", 1), text_step("s2", 2)];
    let mut state = LessonState::new("p1".to_string(), "l1".to_string(), 3, 0);
    state.complete_step(0);
    state.complete_step(1);
    let mut r = LessonRunner::new(state, steps);
    assert_eq!(r.current_order(), 2);
    assert_eq!(r.handle(RunnerEvent::Advance).unwrap(), RunnerResponse::LessonComplete);
}

#[test]
fn runner_back_then_advance_returns_to_same_step() {
    let mut r = make_runner(vec![text_step("s0", 0), text_step("s1", 1), text_step("s2", 2)], 0);
    r.handle(RunnerEvent::Advance).unwrap();
    r.handle(RunnerEvent::Advance).unwrap();
    assert_eq!(r.current_order(), 2);
    assert!(matches!(r.handle(RunnerEvent::Back).unwrap(), RunnerResponse::StepBack { new_order: 1 }));
    assert_eq!(r.handle(RunnerEvent::Advance).unwrap(), RunnerResponse::StepAdvanced { new_order: 2 });
    assert_eq!(r.total_steps(), 3);
}

#[test]
fn runner_current_step_is_step_at_order() {
    let r = make_runner(vec![text_step("s0", 0), text_step("s1", 1)], 0);
    assert_eq!(r.current_step().unwrap().step_id, "s0");
}

// ── Dashboard catalog ─────────────────────────────────────────────────────────

fn make_module(id: &str, cat: &str) -> Module {
    Module {
        module_id: id.to_string(),
        category_id: cat.to_string(),
        title_key: format!("{id}.title"),
        description_key: format!("{id}.desc"),
        version: ModuleVersion::new(1, 0, 0),
        status: ModuleStatus::Available,
        estimated_minutes: Some(15),
    }
}

#[test]
fn build_tile_not_started() {
    let m = make_module("shield-water", "shield-hygiene");
    let tile = build_tile(&m, 0, 10);
    assert_eq!(tile.progress, ProgressBadge::NotStarted);
    assert_eq!(tile.axis, CurriculumAxis::Shield);
}

#[test]
fn build_tile_in_progress() {
    let m = make_module("spear-math", "spear-logic");
    let tile = build_tile(&m, 3, 10);
    assert_eq!(tile.progress, ProgressBadge::InProgress { completed: 3, total: 10 });
    assert_eq!(tile.axis, CurriculumAxis::Spear);
}

#[test]
fn build_tile_completed() {
    let m = make_module("shield-first-aid", "shield-medical");
    let tile = build_tile(&m, 10, 10);
    assert_eq!(tile.progress, ProgressBadge::Completed);
}

#[test]
fn build_tile_quarantined_is_unavailable() {
    let mut m = make_module("shield-nav", "shield-safety");
    m.status = ModuleStatus::Quarantined;
    let tile = build_tile(&m, 0, 5);
    assert_eq!(tile.progress, ProgressBadge::Unavailable);
}

#[test]
fn build_tile_copies_module_fields() {
    let m = make_module("spear-read", "spear-literacy");
    let tile = build_tile(&m, 1, 4);
    assert_eq!(tile.module_id, "spear-read");
    assert_eq!(tile.title_key, "spear-read.title");
    assert_eq!(tile.description_key, "spear-read.desc");
    assert_eq!(tile.estimated_minutes, Some(15));
}

fn tile(id: &str, axis: CurriculumAxis, progress: ProgressBadge) -> ModuleTile {
    ModuleTile {
        module_id: id.to_string(),
        axis,
        title_key: "t".to_string(),
        description_key: "d".to_string(),
        progress,
        estimated_minutes: None,
    }
}

#[test]
fn dashboard_completed_count() {
    let shield = vec![
        tile("a", CurriculumAxis::Shield, ProgressBadge::Completed),
        tile("b", CurriculumAxis::Shield, ProgressBadge::NotStarted),
    ];
    let spear = vec![tile("c", CurriculumAxis::Spear, ProgressBadge::Completed)];
    let dash = DashboardView::new(shield, spear);
    assert_eq!(dash.completed_count(), 2);
}

#[test]
fn dashboard_lists_and_finds_tiles() {
    let shield = vec![tile("a", CurriculumAxis::Shield, ProgressBadge::Completed)];
    let spear = vec![tile("c", CurriculumAxis::Spear, ProgressBadge::NotStarted)];
    let dash = DashboardView::new(shield, spear);
    let all = dash.all_tiles();
    assert_eq!(all.len(), 2);
    assert_eq!(all[0].module_id, "a");
    assert_eq!(all[1].module_id, "c");
    assert_eq!(dash.tile("c").unwrap().axis, CurriculumAxis::Spear);
    assert!(dash.tile("zzz").is_none());
}

#[test]
fn runner_attempts_restart_after_leaving_an_exercise() {
    let mut r = make_runner(vec![text_step("s0", 0), mc_step("s1", 1, "B", &["A", "B"]), text_step("s2", 2)], 0);
    r.handle(RunnerEvent::Advance).unwrap();
    let wrong = || RunnerEvent::Answer(ExerciseAnswer::MultipleChoice { chosen_option_id: "A".to_string() });
    assert!(matches!(r.handle(wrong()).unwrap(), RunnerResponse::AnswerIncorrect { attempts_used: 1, .. }));
    assert!(matches!(r.handle(wrong()).unwrap(), RunnerResponse::AnswerIncorrect { attempts_used: 2, .. }));
    assert!(matches!(r.handle(RunnerEvent::Back).unwrap(), RunnerResponse::StepBack { new_order: 0 }));
    r.handle(RunnerEvent::Advance).unwrap();
    assert!(matches!(r.handle(wrong()).unwrap(), RunnerResponse::AnswerIncorrect { attempts_used: 1, max_attempts: 3 }));
}

#[test]
fn runner_last_exercise_exhausted_completes_lesson() {
    let mut r = make_runner(vec![mc_step("s0", 0, "B", &["A", "B"])], 7);
    let wrong = || RunnerEvent::Answer(ExerciseAnswer::MultipleChoice { chosen_option_id: "A".to_string() });
    for used in 1..3u32 {
        assert_eq!(
            r.handle(wrong()).unwrap(),
            RunnerResponse::AnswerIncorrect { attempts_used: used, max_attempts: 3 }
        );
        assert_eq!(r.state.last_completed_step_order, None);
        assert_eq!(r.state.status, LessonStateStatus::InProgress);
        assert_eq!(r.current_attempts, used);
    }
    assert_eq!(r.handle(wrong()).unwrap(), RunnerResponse::LessonComplete);
    assert_eq!(r.state.last_completed_step_order, Some(0));
    assert_eq!(r.state.status, LessonStateStatus::Completed);
    assert_eq!(r.state.started_at, 7);
    assert_eq!(r.current_attempts, 0);
}

#[test]
fn runner_back_changes_only_the_position() {
    let mut r = make_runner(vec![text_step("s0", 0), text_step("s1", 1), text_step("s2", 2)], 9);
    r.handle(RunnerEvent::Advance).unwrap();
    r.handle(RunnerEvent::Advance).unwrap();
    assert_eq!(r.state.last_completed_step_order, Some(1));
    assert_eq!(r.handle(RunnerEvent::Back).unwrap(), RunnerResponse::StepBack { new_order: 1 });
    assert_eq!(r.state.last_completed_step_order, Some(0));
    assert_eq!(r.current_order(), 1);
    assert_eq!(r.state.status, LessonStateStatus::InProgress);
    assert_eq!(r.state.total_steps, 3);
    assert_eq!(r.state.started_at, 9);
    assert_eq!(r.state.lesson_id, "lesson-01");
}

#[test]
fn engine_error_messages() {
    assert_eq!(EngineError::StepOutOfRange { index: 3, len: 2 }.message(), "step index out of range: 3 (len 2)");
    assert_eq!(EngineError::InvalidAnswer.message(), "invalid exercise answer");
    assert_eq!(EngineError::Serialization("eof".to_string()).message(), "state serialization error: eof");
}

#[test]
fn runner_on_empty_lesson_reports_out_of_range() {
    let mut r = make_runner(vec![], 0);
    assert!(matches!(r.handle(RunnerEvent::Advance), Err(EngineError::StepOutOfRange { index: 0, len: 0 })));
    assert!(matches!(r.current_step(), Err(EngineError::StepOutOfRange { index: 0, len: 0 })));
}
