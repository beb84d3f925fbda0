//! Validated runtime configuration, derived from the command line.

use vstd::prelude::*;
use vstd::string::StringExecFns;

use crate::cli::{Cli, ColorByArg};
use crate::errors::AppError;
use crate::stream::BACKOFF_CAP_MS;

verus! {

/// Output format of the merger.
#[derive(Debug, Clone, Copy, PartialEq, Eq)]
pub enum OutputMode {
    Human,
    Json,
}

/// Which name feeds the colour hash.
#[derive(Debug, Clone, Copy, PartialEq, Eq)]
pub enum ColorBy {
    Pod,
    Container,
}

/// Shape of a human-format output line.
#[derive(Debug, Clone, Copy, PartialEq, Eq)]
pub struct HumanFormat {
    pub timestamps: bool,
    pub color: bool,
    pub color_by: ColorBy,
}

/// Output mode plus the human-format details.
#[derive(Debug, Clone, Copy, PartialEq, Eq)]
pub struct OutputConfig {
    pub mode: OutputMode,
    pub human: HumanFormat,
}

/// The validated configuration the program runs with.
#[derive(Debug, Clone, PartialEq, Eq)]
pub struct Config {
    pub namespace: String,
    pub selector: String,
    pub dev_mode: bool,
    pub output: OutputConfig,
    pub buffer: usize,
    pub containers: Vec<String>,
    pub since_seconds: Option<u64>,
    pub tail_lines: Option<u64>,
    pub reconnect_min_ms: u64,
    pub reconnect_max_ms: u64,
    pub dev_rate_ms: u64,
    pub dev_lines: Option<u64>,
}

/// Is this command line acceptable? The selector must be non-empty, the
/// event buffer positive, and the reconnect bounds ordered and positive,
/// within the supported cap.
pub open spec fn cli_valid(cli: Cli) -> bool {
    &&& cli.selector@.len() > 0
    &&& cli.buffer > 0
    &&& 1 <= cli.reconnect_min_ms
    &&& cli.reconnect_min_ms <= cli.reconnect_max_ms
    &&& cli.reconnect_max_ms <= BACKOFF_CAP_MS
}

impl Config {
    /// Validate the command line and fix every derived choice. Colour is
    /// enabled only when the caller reports a terminal on standard output
    /// and the user did not disable it; JSON mode ignores the human format
    /// entirely. Returns a `Cli` error exactly on an invalid command line.
    pub fn try_from(cli: Cli, stdout_is_tty: bool) -> (r: Result<Config, AppError>)
        ensures
            r is Ok <==> cli_valid(cli),
            (match r {
                Ok(c) => {
                    &&& c.namespace@ == (match cli.namespace {
                        Some(n) => n@,
                        None => "default"@,
                    })
                    &&& c.selector@ == cli.selector@
                    &&& c.dev_mode == cli.dev
                    &&& (c.output.mode is Json <==> cli.json)
                    &&& c.output.human.timestamps == !cli.no_timestamps
                    &&& c.output.human.color == (!cli.no_color && stdout_is_tty)
                    &&& (c.output.human.color_by is Pod <==> cli.color_by is Pod)
                    &&& c.buffer == cli.buffer
                    &&& c.containers.deep_view() == cli.containers.deep_view()
                    &&& c.since_seconds == cli.since_seconds
                    &&& c.tail_lines == cli.tail
                    &&& c.reconnect_min_ms == cli.reconnect_min_ms
                    &&& c.reconnect_max_ms == cli.reconnect_max_ms
                    &&& c.dev_rate_ms == cli.dev_rate_ms
                    &&& c.dev_lines == cli.dev_lines
                },
                Err(e) => e is Cli,
            }),
    {
        if cli.selector.as_str().is_empty() {
            return Err(AppError::Cli(String::from_str("selector must not be empty")));
        }
        if cli.buffer == 0 {
            return Err(AppError::Cli(String::from_str("buffer must be positive")));
        }
        if cli.reconnect_min_ms < 1 || cli.reconnect_min_ms > cli.reconnect_max_ms
            || cli.reconnect_max_ms > BACKOFF_CAP_MS {
            return Err(AppError::Cli(String::from_str("invalid reconnect bounds")));
        }
        let namespace = match cli.namespace {
            Some(n) => n,
            None => String::from_str("default"),
        };
        let mode = if cli.json {
            OutputMode::Json
        } else {
            OutputMode::Human
        };
        let color_by = match cli.color_by {
            ColorByArg::Pod => ColorBy::Pod,
            ColorByArg::Container => ColorBy::Container,
        };
        let output = OutputConfig {
            mode,
            human: HumanFormat {
                timestamps: !cli.no_timestamps,
                color: !cli.no_color && stdout_is_tty,
                color_by,
            },
        };
        Ok(Config {
            namespace,
            selector: cli.selector,
            dev_mode: cli.dev,
            output,
            buffer: cli.buffer,
            containers: cli.containers,
            since_seconds: cli.since_seconds,
            tail_lines: cli.tail,
            reconnect_min_ms: cli.reconnect_min_ms,
            reconnect_max_ms: cli.reconnect_max_ms,
            dev_rate_ms: cli.dev_rate_ms,
            dev_lines: cli.dev_lines,
        })
    }
}

} // verus!
