//! An in-memory admission-and-ordering engine for robot tasks.

pub mod batch;
pub mod board;
pub mod boundary;
pub mod error;
pub mod labels;
pub mod laws;
pub mod queue;
pub mod registry;
pub mod scheduler;
pub mod task;
pub mod text;
