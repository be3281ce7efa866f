//! Capture log for window-manager events.
//!
//! A compositor reports window transitions as JSON documents. This crate
//! decides which of them are kept, turns the kept ones into typed events,
//! and keeps the ordered log of those events together with the JSON text
//! that mirrors it on storage. Reading the clock, running the subscription
//! command, writing the file and serving readers are left to the caller.

pub mod classify;
pub mod codec;
pub mod event;
pub mod json;
pub mod log;
pub mod timestamp;
