//! Core logic of a desktop shell that supervises one local compute process:
//! locating the process's directory on disk, driving its lifecycle state
//! machine, polling it for readiness, planning and interpreting proxied HTTP
//! calls, and mirroring a small amount of workspace metadata in a local cache.
//!
//! All I/O (spawning, HTTP, sleeping, the file system) lives outside this
//! crate; the functions here take the outcomes of those actions as plain
//! values and are verified against exact contracts.

pub mod cache;
pub mod engine;
pub mod health;
pub mod json;
pub mod probe;
pub mod proxy;
pub mod resolver;
pub mod text;
