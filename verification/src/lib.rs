//! A multi-pod log tailer core: pod-lifecycle watching, stream supervision,
//! reconnect backoff, and line formatting, with verified contracts.

pub mod cancel;
pub mod cli;
pub mod clock;
pub mod config;
pub mod dev;
pub mod errors;
pub mod merge;
pub mod podwatch;
pub mod shutdown;
pub mod stream;
pub mod supervisor;
pub mod types;
