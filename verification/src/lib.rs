//! taktakk: offline-first secure self-learning distribution.
//!
//! The verified core of the platform: the lesson state machine and exercise
//! evaluation, key-slot and trust handling, the sync protocol (inventories,
//! transfer plans, chunking), and the storage-side record and wipe logic.

pub mod domain;
pub mod engine;
pub mod storage;
pub mod security;
pub mod sync;
pub mod text;
