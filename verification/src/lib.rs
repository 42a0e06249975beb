//! A periodic task runner's core: a registry of named tasks with modes and
//! bounded concurrency counters, the per-tick invocation decisions, the
//! control-plane updates that operators apply at runtime, and the calculator
//! for the one-time delay before the first invocation.

pub mod registry;
pub mod task;
pub mod time;
