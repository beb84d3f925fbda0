//! Error taxonomy of the tailer.

use vstd::prelude::*;
use vstd::string::StringExecFns;

verus! {

/// Everything that can end the program or a subsystem: invalid command
/// line, a cluster error, an I/O error, a serialisation error, or anything
/// else worth a diagnostic.
#[derive(Debug, Clone, PartialEq, Eq)]
pub enum AppError {
    Cli(String),
    Kube(String),
    Io(String),
    Json(String),
    Other(String),
}

pub type AppResult<T> = Result<T, AppError>;

impl AppError {
    /// The one-line diagnostic for this error.
    pub fn message(&self) -> (r: String)
        ensures
            (match self {
                AppError::Cli(s) => r@ == s@,
                AppError::Kube(s) => r@ == "kubernetes error: "@ + s@,
                AppError::Io(s) => r@ == "io error: "@ + s@,
                AppError::Json(s) => r@ == "json error: "@ + s@,
                AppError::Other(s) => r@ == s@,
            }),
    {
        match self {
            AppError::Cli(s) => s.clone(),
            AppError::Kube(s) => {
                let mut out = String::from_str("kubernetes error: ");
                out.append(s.as_str());
                out
            },
            AppError::Io(s) => {
                let mut out = String::from_str("io error: ");
                out.append(s.as_str());
                out
            },
            AppError::Json(s) => {
                let mut out = String::from_str("json error: ");
                out.append(s.as_str());
                out
            },
            AppError::Other(s) => s.clone(),
        }
    }
}

} // verus!
