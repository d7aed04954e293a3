//! The viewer's error taxonomy. Every abort path carries one of these to
//! the top level, where it is shown as a short message and the process
//! exits cleanly.

use vstd::prelude::*;

verus! {

/// Why a run aborts.
#[derive(Debug)]
pub enum RunError {
    /// Missing or invalid arguments: shown as guidance.
    Usage,
    /// The image file does not exist.
    FileNotFound,
    /// The image file exists but cannot be decoded; carries the decoder's
    /// reason.
    Decode(String),
    /// Querying, polling or writing the terminal failed; carries the
    /// diagnostic.
    TerminalIo(String),
}

impl RunError {
    /// The human-readable message for this error: fixed text for the
    /// argument and missing-file cases, the carried reason otherwise.
    pub fn message(&self) -> (m: String)
        ensures
            *self is Usage ==> m@ == "usage: imagy <image> [width scale]"@,
            *self is FileNotFound ==> m@ == "image file does not exist"@,
            self matches RunError::Decode(s) ==> m@ == s@,
            self matches RunError::TerminalIo(s) ==> m@ == s@,
    {
        match self {
            RunError::Usage => "usage: imagy <image> [width scale]".to_owned(),
            RunError::FileNotFound => "image file does not exist".to_owned(),
            RunError::Decode(s) => s.clone(),
            RunError::TerminalIo(s) => s.clone(),
        }
    }
}

} // verus!
