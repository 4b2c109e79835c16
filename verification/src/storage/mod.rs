//! Storage-side logic: the text codes stored for each status, row decoding,
//! the event-log record, wipe plans, maintenance decisions, the object-store
//! layout and the failure-injection fixtures. The SQL and filesystem calls
//! that carry these out live outside this library.

pub mod codec;
pub mod event_log;
pub mod failure_injection;
pub mod maintenance;
pub mod object_store;
pub mod wipe;
