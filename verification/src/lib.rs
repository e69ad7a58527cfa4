//! A local automation runner.
//!
//! The workflow engine orders the steps of a workflow by their dependencies
//! and decides, event by event, how each step and the run as a whole proceed:
//! condition check, retries with backoff, fail-fast. The orchestrator tracks
//! every submitted task in a registry and admits tasks under a global
//! concurrency limit. Commands, timers and files are the caller's business:
//! the crate decides, the caller performs.

pub mod config;
pub mod ident;
pub mod orchestrator;
pub mod text;
pub mod time;
pub mod upload;
pub mod utils;
pub mod workflow;
