//! The runtime backed by tokio.
use crate::runtime::JoinError;
use vstd::prelude::*;

verus! {

#[verifier::external_type_specification]
#[verifier::external_body]
pub struct ExTokioRuntime(::tokio::runtime::Runtime);

/// A tokio runtime: one that runs everything on the calling thread, or one with a
/// pool of worker threads.
pub enum Tokio {
    SingleThreaded { rt: ::tokio::runtime::Runtime },
    MultiThreaded { rt: ::tokio::runtime::Runtime },
}

/// A runtime asked to run on `threads` threads gets a worker pool exactly when more
/// than one thread is asked for.
pub fn uses_worker_pool(threads: usize) -> (r: bool)
    ensures
        r == (threads > 1),
{
    threads > 1
}

/// How a task that did not finish is reported: a task that panicked as `Panicked`,
/// any other (it was cancelled) as `Cancelled`.
pub fn join_error(panicked: bool) -> (e: JoinError)
    ensures
        e == (if panicked { JoinError::Panicked } else { JoinError::Cancelled }),
{
    if panicked {
        JoinError::Panicked
    } else {
        JoinError::Cancelled
    }
}

} // verus!
