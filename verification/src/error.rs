//! Failures that end an operation without an outcome.

use vstd::prelude::*;

verus! {

/// Why an operation could not be carried through.
#[derive(Debug, Clone, Copy, PartialEq, Eq, Structural)]
pub enum Error {
    /// The document node has no `name` string.
    MissingName,
    /// The document node has no `cmd` string.
    MissingCmd,
    /// The command ended without an exit code.
    Unknown,
    /// The caller answered something that was not asked at this stage.
    OutOfTurn,
}

impl Error {
    /// A sentence that names the failure.
    pub fn message(&self) -> (text: String)
        ensures
            text@ == match *self {
                Error::MissingName => "missing name"@,
                Error::MissingCmd => "missing cmd"@,
                Error::Unknown => "unknown error"@,
                Error::OutOfTurn => "answer out of turn"@,
            },
    {
        match self {
            Error::MissingName => "missing name".to_owned(),
            Error::MissingCmd => "missing cmd".to_owned(),
            Error::Unknown => "unknown error".to_owned(),
            Error::OutOfTurn => "answer out of turn".to_owned(),
        }
    }
}

} // verus!
