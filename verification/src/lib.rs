//! Core of a local backup/archival engine.
//!
//! Jobs describe how files move or copy between storage volumes; the modules
//! here hold the verified decision logic of the pipeline (indexing, output
//! preparation, copying, verification, deletion), the trigger scheduler, the
//! volume identity rules, and the recovery replay policy.  All filesystem,
//! clock, and device access is performed by callers, which hand plain values
//! in and carry the decisions out.

pub mod drives;
pub mod engine;
pub mod health;
pub mod jobs;
pub mod kvlist;
pub mod logging;
pub mod pipeline;
pub mod recovery;
pub mod scheduler;
pub mod settings;
pub mod store;
pub mod strings;
