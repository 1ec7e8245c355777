//! Errors of the backend.
use vstd::prelude::*;

verus! {

/// What went wrong while talking to the hardware tools.
#[derive(Debug, Clone)]
pub enum AppError {
    /// A command could not be run or reported failure.
    Command { cmd: String, msg: String },
    /// Output of a command could not be understood.
    Parse(String),
    /// A file could not be read.
    Io(String),
}

/// The text shown for an error.
pub open spec fn error_text(e: AppError) -> Seq<char> {
    match e {
        AppError::Command { cmd, msg } => "command `"@ + cmd@ + "` failed: "@ + msg@,
        AppError::Parse(msg) => "parse error: "@ + msg@,
        AppError::Io(msg) => "I/O error: "@ + msg@,
    }
}

impl AppError {
    /// The text shown for this error.
    pub fn message(&self) -> (r: String)
        ensures
            r@ == error_text(*self),
    {
        let mut r = String::new();
        match self {
            AppError::Command { cmd, msg } => {
                r.append("command `");
                r.append(cmd.as_str());
                r.append("` failed: ");
                r.append(msg.as_str());
            },
            AppError::Parse(msg) => {
                r.append("parse error: ");
                r.append(msg.as_str());
            },
            AppError::Io(msg) => {
                r.append("I/O error: ");
                r.append(msg.as_str());
            },
        }
        r
    }
}

} // verus!
