//! The error side of the uniform result contract.
//!
//! Every operation that can fail reports one of these kinds; a caller
//! across the dispatch boundary receives only the rendered message.

use vstd::prelude::*;

verus! {

/// Why an operation failed.
#[derive(Clone, Copy, Debug, PartialEq, Eq, Structural)]
pub enum OpError {
    /// The path, or the parent it needs, does not exist.
    NotFound,
    /// The path to create already exists.
    AlreadyExists,
    /// A directory stood where a file operation needed a file.
    IsADirectory,
    /// A file stood where a directory operation needed a directory.
    NotADirectory,
    /// The running executable's location could not be resolved.
    Unresolvable,
}

impl OpError {
    /// The message a caller receives for this error kind.
    pub open spec fn message_spec(self) -> Seq<char> {
        match self {
            OpError::NotFound => "entry not found"@,
            OpError::AlreadyExists => "entry already exists"@,
            OpError::IsADirectory => "entry is a directory"@,
            OpError::NotADirectory => "entry is not a directory"@,
            OpError::Unresolvable => "executable path cannot be resolved"@,
        }
    }

    /// Renders the error as the human-readable message carried across the
    /// dispatch boundary.
    pub fn message(&self) -> (m: String)
        ensures
            m@ == self.message_spec(),
    {
        match self {
            OpError::NotFound => String::from_str("entry not found"),
            OpError::AlreadyExists => String::from_str("entry already exists"),
            OpError::IsADirectory => String::from_str("entry is a directory"),
            OpError::NotADirectory => String::from_str("entry is not a directory"),
            OpError::Unresolvable => String::from_str("executable path cannot be resolved"),
        }
    }
}

} // verus!
