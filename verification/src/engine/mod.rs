//! Learning experience logic: lesson steps, exercise evaluation, the
//! crash-safe lesson state, the step-advance state machine and the
//! dashboard catalog model. No I/O happens here.

pub mod catalog;
pub mod error;
pub mod exercise;
pub mod runner;
pub mod state;
pub mod step;
