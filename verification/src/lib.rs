//! Byte counters for the chunk IO path.
//!
//! [`counters`] holds the counters and the four operations on them,
//! [`history`] says what they hold after any run of operations, and
//! [`report`] writes a snapshot as one machine-readable line.

pub mod counters;
pub mod history;
pub mod report;
