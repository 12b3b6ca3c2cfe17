//! Code mode: one script that calls several downstream tools and returns a single value.
//!
//! A script runs in a worker process, and its parent owns the host bindings. This library is the
//! logic of both sides: it decides, and its caller runs the engine, the processes and the pipes.

pub mod client;
pub mod drive;
pub mod errors;
pub mod frame;
pub mod host;
pub mod host_calls;
pub mod jobs;
pub mod json;
pub mod laws;
pub mod ledger;
pub mod memory;
pub mod model;
pub mod names;
pub mod permits;
pub mod script;
pub mod servers;
pub mod supervisor;
pub mod text;
pub mod worker;
