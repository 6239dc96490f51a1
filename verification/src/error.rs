//! The error a rule compiler can report.

use vstd::prelude::*;

verus! {

/// Why a raw ignore-file line could not be compiled into a rule. The offending
/// line is carried along so a caller can report it.
#[derive(Debug)]
pub enum Error {
    /// The line's glob text was rejected: either nothing was left of the
    /// pattern after stripping the negation mark and the trailing slash, or
    /// the glob syntax itself is invalid (an unclosed bracket, a stray `**`).
    Pattern { line: String },
}

impl Error {
    /// The raw ignore-file line that was rejected.
    pub fn line(&self) -> (r: &String)
        ensures
            self matches Error::Pattern { line } && r@ == line@,
    {
        match self {
            Error::Pattern { line } => line,
        }
    }
}

} // verus!
