//! The error surfaced when a wrapped byte source or sink fails.

use vstd::prelude::*;

verus! {

/// A failed input or output operation, described in words.  The hash
/// operations themselves are total and never produce one of these.
#[derive(Debug)]
pub struct Error {
    message: String,
}

impl View for Error {
    type V = Seq<char>;

    closed spec fn view(&self) -> Seq<char> {
        self.message@
    }
}

impl Error {
    /// Wraps a description of the failure.
    pub fn new(message: String) -> (r: Error)
        ensures
            r@ == message@,
    {
        Error { message }
    }

    /// The description of the failure.
    pub fn message(&self) -> (r: &String)
        ensures
            r@ == self@,
    {
        &self.message
    }
}

} // verus!
