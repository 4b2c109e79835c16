//! Engine error types.

use vstd::prelude::*;

use crate::text::push_decimal;

verus! {

/// Errors raised by the lesson engine.
#[derive(Debug, Clone)]
pub enum EngineError {
    NoLesson,
    AtFirstStep,
    AlreadyCompleted,
    InvalidAnswer,
    Serialization(String),
    StepOutOfRange { index: usize, len: usize },
}

/// Result type of engine operations.
pub type EngineResult<T> = Result<T, EngineError>;

/// The human-readable message of an engine error.
pub open spec fn engine_error_message(e: EngineError) -> Seq<char> {
    match e {
        EngineError::NoLesson => "no lesson loaded"@,
        EngineError::AtFirstStep => "already at first step"@,
        EngineError::AlreadyCompleted => "lesson already completed"@,
        EngineError::InvalidAnswer => "invalid exercise answer"@,
        EngineError::Serialization(m) => "state serialization error: "@ + m@,
        EngineError::StepOutOfRange { index, len } =>
            "step index out of range: "@ + crate::text::decimal(index as nat) + " (len "@
                + crate::text::decimal(len as nat) + ")"@,
    }
}

impl EngineError {
    /// The human-readable message of this error.
    pub fn message(&self) -> (m: String)
        ensures
            m@ == engine_error_message(*self),
    {
        match self {
            EngineError::NoLesson => String::from_str("no lesson loaded"),
            EngineError::AtFirstStep => String::from_str("already at first step"),
            EngineError::AlreadyCompleted => String::from_str("lesson already completed"),
            EngineError::InvalidAnswer => String::from_str("invalid exercise answer"),
            EngineError::Serialization(msg) => {
                let mut m = String::from_str("state serialization error: ");
                m.append(msg.as_str());
                m
            },
            EngineError::StepOutOfRange { index, len } => {
                let mut m = String::from_str("step index out of range: ");
                push_decimal(&mut m, *index as u64);
                m.append(" (len ");
                push_decimal(&mut m, *len as u64);
                m.append(")");
                m
            },
        }
    }
}

} // verus!
