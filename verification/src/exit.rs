//! The mapping from program outcomes to process exit codes.  The process
//! exit itself is I/O and happens in the embedding program; the code values
//! are decided here.

use vstd::prelude::*;

verus! {

/// The two outcomes the program reports to its environment.
#[derive(Clone, Copy, Debug, PartialEq, Eq, Structural)]
pub enum ExitCode {
    Success,
    Error,
}

impl ExitCode {
    /// The numeric process exit code: 0 for success, 1 for an error.
    pub fn code(self) -> (r: i32)
        ensures
            self == ExitCode::Success ==> r == 0,
            self == ExitCode::Error ==> r == 1,
    {
        match self {
            ExitCode::Success => 0,
            ExitCode::Error => 1,
        }
    }
}

} // verus!
