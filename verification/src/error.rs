//! The error type shared by the whole library.

use vstd::prelude::*;

verus! {

/// A recoverable error, carrying a human-readable message and the place in the
/// library where it arose.
#[derive(Debug, Clone)]
pub struct RosaError {
    /// The module that produced the error.
    pub function: String,
    /// A line marker for the origin of the error.
    pub line: u32,
    /// The source file that produced the error.
    pub file: String,
    /// The human-readable description of the error.
    pub message: String,
}

impl RosaError {
    /// Build an error from its origin and message.
    pub fn new(function: &str, line: u32, file: &str, message: &str) -> (r: RosaError)
        ensures
            r.function@ == function@,
            r.line == line,
            r.file@ == file@,
            r.message@ == message@,
    {
        RosaError {
            function: function.to_owned(),
            line,
            file: file.to_owned(),
            message: message.to_owned(),
        }
    }

    /// The message carried by the error.
    pub fn message(&self) -> (r: &str)
        ensures
            r@ == self.message@,
    {
        self.message.as_str()
    }
}

} // verus!
