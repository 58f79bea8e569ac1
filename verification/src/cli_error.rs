use vstd::prelude::*;

verus! {

/// An orchestrator failure: a plain message, or a subprocess that exited
/// with a code worth propagating.
#[derive(Debug)]
pub enum Error {
    Message(String),
    CommandFailed { context: &'static str, code: i32 },
}

impl Error {
    /// The process exit code the failure maps to: a failed subprocess
    /// propagates its code; anything else exits with one.
    pub fn exit_code(&self) -> (r: i32)
        ensures
            match self {
                Error::CommandFailed { code, .. } => r == code,
                _ => r == 1,
            },
    {
        match self {
            Error::CommandFailed { code, .. } => *code,
            _ => 1,
        }
    }

    /// A plain-message failure.
    pub fn message(message: &str) -> (r: Error)
        ensures
            r matches Error::Message(m) && m@ == message@,
    {
        Error::Message(message.to_owned())
    }
}

} // verus!
