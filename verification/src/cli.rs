//! The command-line surface, as plain data. The argument parser itself
//! lives outside the library and hands over one of these.

use vstd::prelude::*;

verus! {

/// Which name feeds the colour hash in human output.
#[derive(Debug, Clone, Copy, PartialEq, Eq)]
pub enum ColorByArg {
    Pod,
    Container,
}

/// The parsed command line, before validation.
#[derive(Debug, Clone, PartialEq, Eq)]
pub struct Cli {
    /// Kubernetes namespace; `None` means "default".
    pub namespace: Option<String>,
    /// Label selector (e.g. `app=web,tier=frontend`); must be non-empty.
    pub selector: String,
    /// Run against the built-in pod simulator instead of a cluster.
    pub dev: bool,
    /// Emit newline-delimited JSON instead of human output.
    pub json: bool,
    /// Disable timestamps in human output.
    pub no_timestamps: bool,
    /// Disable coloured output (human mode only).
    pub no_color: bool,
    /// Colour by pod or by container (human mode only).
    pub color_by: ColorByArg,
    /// Bounded channel size for merged log events; must be positive.
    pub buffer: usize,
    /// Restrict following to these container names; empty means all.
    pub containers: Vec<String>,
    /// Only return logs newer than this many seconds.
    pub since_seconds: Option<u64>,
    /// Only return this many lines from the end of each log.
    pub tail: Option<u64>,
    /// Minimum reconnect backoff delay in milliseconds; must be positive.
    pub reconnect_min_ms: u64,
    /// Maximum reconnect backoff delay in milliseconds; must be at least
    /// the minimum and within the supported cap.
    pub reconnect_max_ms: u64,
    /// Simulator: milliseconds between log lines per stream.
    pub dev_rate_ms: u64,
    /// Simulator: stop each stream after this many lines.
    pub dev_lines: Option<u64>,
}

} // verus!
