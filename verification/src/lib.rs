//! Shell tab-completion support for an external task-runner command.
//!
//! The library holds the verified core: the per-directory cache store with
//! its key derivation, the parsers for the task runner's text output, and
//! the dispatcher that picks a completion strategy from the cursor's
//! argument position.  Reading the shell's environment, invoking the task
//! runner and touching the cache files on disk are left to the surrounding
//! binary, which feeds plain values in and carries the decided actions out.

pub mod cache;
pub mod dispatch;
pub mod tasks;
pub mod text;
