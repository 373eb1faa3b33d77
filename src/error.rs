//! The errors that the pool reports to its caller.
use vstd::prelude::*;

verus! {

/// What `ThreadPool::build` says when asked for a pool without workers.
pub open spec fn zero_capacity_text() -> Seq<char> {
    "ThreadPool's capacity should not be zero"@
}

/// A pool could not be built: it was asked for no workers at all.
#[derive(Debug)]
pub struct PoolCreationError(String);

impl PoolCreationError {
    /// The error for a requested capacity of zero.
    pub fn zero_capacity() -> (e: PoolCreationError)
        ensures
            e.message_view() == zero_capacity_text(),
    {
        PoolCreationError("ThreadPool's capacity should not be zero".to_owned())
    }

    pub closed spec fn message_view(&self) -> Seq<char> {
        self.0@
    }

    /// The text that describes the error.
    pub fn message(&self) -> (s: &str)
        ensures
            s@ == self.message_view(),
    {
        self.0.as_str()
    }
}

/// A job offered to a queue whose submitting side is closed, handed back.
#[derive(Debug)]
pub struct SubmitError<T> {
    pub job: T,
}

} // verus!
