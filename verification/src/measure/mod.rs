//! Turning counter snapshots into measurements.

pub mod common;
pub mod pattern;
pub mod phases;
pub mod batch;
pub mod single;
