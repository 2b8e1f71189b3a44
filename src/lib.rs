//! Fetches a model's files from a hub with bounded parallelism and lays the
//! cached snapshot out again under a stable branch-named alias directory.
//!
//! Everything here is pure decision logic: the network, the thread pool and
//! the filesystem are driven by the caller, who hands results back in as plain
//! values.

pub mod error;
pub mod hub;
pub mod layout;
pub mod orchestrator;
pub mod materialize;
