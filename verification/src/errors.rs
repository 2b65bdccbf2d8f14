//! The failure taxonomy of the save layer.

use vstd::prelude::*;

verus! {

/// Every way an operation of this layer can fail.  The shell maps each
/// variant to a human-readable message through [`SaveError::message`].
#[derive(Debug)]
pub enum SaveError {
    /// The requested file name is malformed (it holds a path separator).
    InvalidName,
    /// No save file matches the selector; holds the selector.
    NotFound(String),
    /// The saves directory could not be created or probed; holds a detail.
    IoFailure(String),
    /// A store could not be opened or queried; holds the offending file
    /// name or the driver's message.
    DbFailure(String),
    /// A read or update was attempted while no save was open.
    NoActiveSave,
}

impl SaveError {
    /// The message that crosses the command boundary, one stable string
    /// per variant.
    pub fn message(&self) -> (m: String)
        ensures
            self is InvalidName ==> m@ == "file_name must be a bare file name (no path separators)"@,
            self matches SaveError::NotFound(sel) ==> m@ == "No save found for game: "@ + sel@,
            self matches SaveError::IoFailure(detail) ==> m@ == "IO failure: "@ + detail@,
            self matches SaveError::DbFailure(detail) ==> m@ == "DB failure: "@ + detail@,
            self is NoActiveSave ==> m@ == "No DB open"@,
    {
        match self {
            SaveError::InvalidName => {
                String::from_str("file_name must be a bare file name (no path separators)")
            },
            SaveError::NotFound(sel) => {
                String::from_str("No save found for game: ").concat(sel.as_str())
            },
            SaveError::IoFailure(detail) => {
                String::from_str("IO failure: ").concat(detail.as_str())
            },
            SaveError::DbFailure(detail) => {
                String::from_str("DB failure: ").concat(detail.as_str())
            },
            SaveError::NoActiveSave => String::from_str("No DB open"),
        }
    }
}

} // verus!
