//! Offline sync: inventories, transfer plans, chunked transfer, physical media
//! import and the delayed permission model. All of it works without internet
//! access; transports live outside this library.

pub mod chunk;
pub mod import;
pub mod inventory;
pub mod manifest;
pub mod permission;
pub mod transport;
