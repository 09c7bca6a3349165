//! A regression-test orchestrator library.
//!
//! Test-case files are discovered inside a directory tree, a per-file
//! configuration is resolved by merging inherited settings down the tree,
//! each test's command output is checked against recorded golden artifacts,
//! and results are aggregated into a run summary.
//!
//! This crate holds the verified core: the hierarchical configuration
//! resolver, the template expander, the weighted admission scheduler model,
//! and the assertion engine. Process execution, the filesystem walk and
//! terminal output live in the surrounding application code, which hands
//! plain values in and out.

pub mod args;
pub mod assert_engine;
pub mod assert_rules;
pub mod difftext;
pub mod config;
pub mod decimal;
pub mod numtok;
pub mod patterns;
pub mod regression;
pub mod report;
pub mod resolve;
pub mod sched;
pub mod source;
pub mod staging;
pub mod strutil;
pub mod template;
