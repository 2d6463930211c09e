//! The error carried by filesystem-facing operations of the library: a
//! message describing the single entry that could not be handled.  Such
//! errors are entry-scoped; callers skip the entry and never abort a sweep
//! over them.

use vstd::prelude::*;

verus! {

/// An entry-scoped failure: the entry's path could not be classified or read.
#[derive(Debug)]
pub struct FsError {
    message: String,
}

impl FsError {
    /// The message the error carries.
    pub closed spec fn spec_message(&self) -> Seq<char> {
        self.message@
    }

    /// The message the error carries.
    pub fn message(&self) -> (r: &str)
        ensures
            r@ == self.spec_message(),
    {
        self.message.as_str()
    }
}

/// An `Err` that reports an input no entry can be made of (a path that is
/// neither file nor directory, an unknown extension).
pub fn invalid_input<T>(message: String) -> (r: Result<T, FsError>)
    ensures
        r matches Err(e) && e.spec_message() == message@,
{
    Err(FsError { message })
}

/// An `Err` for any other entry-scoped failure.
pub fn other<T>(message: String) -> (r: Result<T, FsError>)
    ensures
        r matches Err(e) && e.spec_message() == message@,
{
    Err(FsError { message })
}

} // verus!
