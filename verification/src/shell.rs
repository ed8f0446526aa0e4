//! The script executor as the line editor sees it: a parse result goes in, an
//! exit status comes out.

use vstd::prelude::*;

verus! {

/// How a script ended.
#[derive(Clone, Copy, Debug, PartialEq, Eq)]
pub enum ExitStatus {
    /// The script ran to its end and reported this code.
    ExitedWith(i32),
}

/// Why a line did not yield a command.
#[derive(Clone, Debug, PartialEq, Eq)]
pub enum ParseError {
    /// The line holds nothing to run.
    Empty,
    /// The line cannot be read as a command; the message says why.
    Fatal(String),
}

/// The exit code of a line whose parse ended as `parsed`: `-1` where the line
/// is fatally unparsable, `0` for a command and for a line with nothing to run.
pub open spec fn exit_code<A>(parsed: Result<A, ParseError>) -> int {
    if parsed matches Err(ParseError::Fatal(_)) {
        -1
    } else {
        0
    }
}

/// The script executor.
pub struct Shell;

impl Shell {
    /// Runs the script whose parse ended as `parsed` and reports how it left.
    ///
    /// A line with nothing to run is no failure. A fatal parse error never
    /// aborts the session: it is reported as the status `-1`.
    pub fn run_script<A>(&mut self, parsed: &Result<A, ParseError>) -> (status: ExitStatus)
        ensures
            status == ExitStatus::ExitedWith(exit_code(*parsed) as i32),
            *final(self) == *old(self),
    {
        match parsed {
            Ok(_) => ExitStatus::ExitedWith(0),
            Err(ParseError::Empty) => ExitStatus::ExitedWith(0),
            Err(ParseError::Fatal(_)) => ExitStatus::ExitedWith(-1),
        }
    }
}

} // verus!
