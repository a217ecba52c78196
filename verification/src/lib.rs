//! A minimal extensible task-execution framework.
//!
//! A configuration maps task names to raw parameter bags, a registry maps
//! task names to pluggable task factories, and a runner validates each
//! configured task's parameters against the task's declared schema before
//! invoking it, sequentially, stopping at the first failure.

pub mod config;
pub mod errors;
pub mod params;
pub mod registry;
mod report;
pub mod runner;
pub mod strmap;
pub mod task;
pub mod tasks;
pub mod value;
