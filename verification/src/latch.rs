//! The fatal error latch: the first error is reported, the rest are not.

use vstd::prelude::*;

verus! {

/// The status with which the process ends after a fatal error.
pub const FAILURE_STATUS: i32 = 1;

/// The line that reports a fatal error: the name of the tool, the path
/// at which the error came up and the error, with a colon and a space
/// between them.
pub open spec fn diagnostic(path: Seq<char>, error: Seq<char>) -> Seq<char> {
    "sha1sum: "@ + path + ": "@ + error
}

/// A latch that fires once. One latch serves the whole process, whatever
/// the number of workers and of trees.
#[derive(Debug)]
pub struct Latch {
    fired: bool,
}

impl Latch {
    /// Whether an error has been reported through this latch.
    pub closed spec fn fired(&self) -> bool {
        self.fired
    }

    /// A latch through which nothing has been reported.
    pub fn new() -> (latch: Latch)
        ensures
            !latch.fired(),
    {
        Latch { fired: false }
    }

    /// Whether an error has been reported through this latch.
    pub fn has_fired(&self) -> (fired: bool)
        ensures
            fired == self.fired(),
    {
        self.fired
    }
}

/// Reports a fatal error at `path`. The first call on a latch fires it and
/// gives the line to print before the process ends with a failure. Every
/// later call gives nothing: one line is shown, however many workers fail.
pub fn die(latch: &mut Latch, path: &str, error: &str) -> (line: Option<String>)
    ensures
        final(latch).fired(),
        old(latch).fired() ==> line is None,
        !old(latch).fired() ==> (line matches Some(text) && text@ == diagnostic(path@, error@)),
{
    if latch.fired {
        None
    } else {
        latch.fired = true;
        let mut text = String::from_str("sha1sum: ");
        text.append(path);
        text.append(": ");
        text.append(error);
        Some(text)
    }
}

} // verus!
