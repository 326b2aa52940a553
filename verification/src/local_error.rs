//! The error taxonomy of the tool: one variant per kind of external failure
//! that can reach the command boundary. Parse failures of a stored
//! fingerprint never surface — they are recovered internally by treating the
//! record as absent — but the kind exists so every failure has a tag.

use vstd::prelude::*;

verus! {

/// What went wrong, by kind: an I/O failure (missing, unreadable or
/// unwritable file, failed directory operation), an external process that
/// exited unsuccessfully, or an unparsable stored fingerprint.
#[derive(Clone, Copy, Debug, PartialEq, Eq, Structural)]
pub enum LocalError {
    IoErr,
    ExitErr,
    Parse,
}

impl LocalError {
    /// A short description of the failure kind, for the reporting path at
    /// the command boundary.
    pub fn message(&self) -> (m: String)
        ensures
            *self == LocalError::IoErr ==> m@ == "file or directory operation failed"@,
            *self == LocalError::ExitErr ==> m@ == "external process exited unsuccessfully"@,
            *self == LocalError::Parse ==> m@ == "stored fingerprint is not a number"@,
    {
        match self {
            LocalError::IoErr => "file or directory operation failed".to_owned(),
            LocalError::ExitErr => "external process exited unsuccessfully".to_owned(),
            LocalError::Parse => "stored fingerprint is not a number".to_owned(),
        }
    }
}

} // verus!
