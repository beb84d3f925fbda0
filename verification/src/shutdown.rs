//! The process-wide shutdown signal, the reasons that trigger it, and the
//! exit code each reason earns.

use vstd::prelude::*;

use tokio_util::sync::CancellationToken;

use crate::cancel::{token_cancel, token_clone, token_new};

verus! {

/// Why the program is shutting down.
#[derive(Debug, Clone, Copy, PartialEq, Eq)]
pub enum ShutdownReason {
    CtrlC,
    Sigterm,
    OutputClosed,
    WatcherEnded,
    WatcherError,
    OutputError,
}

/// Reasons that end the program cleanly: a signal, the watch finishing, or
/// the reader closing the output pipe.
pub open spec fn is_clean(r: ShutdownReason) -> bool {
    match r {
        ShutdownReason::CtrlC => true,
        ShutdownReason::Sigterm => true,
        ShutdownReason::OutputClosed => true,
        ShutdownReason::WatcherEnded => true,
        ShutdownReason::WatcherError => false,
        ShutdownReason::OutputError => false,
    }
}

/// The process exit code of a shutdown reason: 0 exactly for the clean
/// ends — in particular, a broken pipe exits 0.
pub fn exit_code_for(reason: ShutdownReason) -> (r: i32)
    ensures
        r == 0 <==> is_clean(reason),
        r == 0 || r == 1,
{
    match reason {
        ShutdownReason::CtrlC => 0,
        ShutdownReason::Sigterm => 0,
        ShutdownReason::OutputClosed => 0,
        ShutdownReason::WatcherEnded => 0,
        ShutdownReason::WatcherError => 1,
        ShutdownReason::OutputError => 1,
    }
}

/// The shutdown reason of a failed write on the output sink: a broken pipe
/// means the reader went away — a clean end, not an error; anything else
/// is a writer error.
pub fn write_failure_reason(broken_pipe: bool) -> (r: ShutdownReason)
    ensures
        broken_pipe ==> r == ShutdownReason::OutputClosed,
        !broken_pipe ==> r == ShutdownReason::OutputError,
{
    if broken_pipe {
        ShutdownReason::OutputClosed
    } else {
        ShutdownReason::OutputError
    }
}

/// The process-wide cancellation signal; every follower's token descends
/// from it.
pub struct Shutdown {
    token: CancellationToken,
}

impl Shutdown {
    /// A fresh, untriggered signal.
    pub fn new() -> Shutdown {
        Shutdown { token: token_new() }
    }

    /// A handle on the signal for another task.
    pub fn token(&self) -> CancellationToken {
        token_clone(&self.token)
    }

    /// Trigger the signal.
    pub fn cancel(&self) {
        token_cancel(&self.token)
    }
}

} // verus!
