//! The parts of an async runtime that the framework relies on: task handles,
//! channels and timers, with the errors they report.
use std::marker::PhantomData;
use vstd::prelude::*;

pub mod mpsc;
pub mod oneshot;
pub mod time;
pub mod tokio;

verus! {

/// Why a spawned task produced no value.
#[derive(Debug, Clone, Copy, PartialEq, Eq)]
pub enum JoinError {
    Panicked,
    Cancelled,
}

/// Why a receive produced no value.
#[derive(Debug, Clone, Copy, PartialEq, Eq)]
pub enum TryRecvError {
    /// The channel is empty but its senders are still connected.
    Empty,
    /// All senders are gone: nothing will ever arrive.
    Disconnected,
}

impl TryRecvError {
    /// The error's message.
    pub fn description(&self) -> (r: &'static str)
        ensures
            *self == TryRecvError::Empty ==> r@ == "receiving on an empty channel"@,
            *self == TryRecvError::Disconnected ==> r@ == "receiving on a closed channel"@,
    {
        match self {
            TryRecvError::Empty => "receiving on an empty channel",
            TryRecvError::Disconnected => "receiving on a closed channel",
        }
    }
}

/// A handle to a spawned task.
pub trait JoinHandle<T>: Send + Unpin {
    /// Asks the task to stop.
    fn cancel(&self);

    /// Whether the task has finished.
    fn is_finished(&self) -> bool;

    /// The handle, as the future of the task's outcome.
    fn into_future(self) -> (f: JoinHandleFut<Self, T>) where Self: Sized
        ensures
            f.spec_handle() == self,
    {
        JoinHandleFut { handle: self, _marker: PhantomData }
    }
}

/// A task handle awaited as a future of the task's outcome.
pub struct JoinHandleFut<Handle, T> {
    handle: Handle,
    _marker: PhantomData<Box<T>>,
}

impl<Handle, T> JoinHandleFut<Handle, T> {
    /// The handle being awaited.
    pub closed spec fn spec_handle(&self) -> Handle {
        self.handle
    }

    pub fn new(handle: Handle) -> (f: Self)
        where Handle: JoinHandle<T>
        ensures
            f.spec_handle() == handle,
    {
        JoinHandleFut { handle, _marker: PhantomData }
    }

    /// The handle being awaited, to poll it.
    pub fn handle_mut(&mut self) -> (r: &mut Handle)
        ensures
            *r == old(self).spec_handle(),
            final(self).spec_handle() == *final(r),
    {
        &mut self.handle
    }

    /// Gives the handle back.
    pub fn into_handle(self) -> (r: Handle)
        ensures
            r == self.spec_handle(),
    {
        self.handle
    }
}

/// The number of worker threads of the runtime that runs background tasks: the
/// number asked for, but at least one.
pub fn background_threads(threads: usize) -> (r: usize)
    ensures
        r == (if threads >= 1 { threads } else { 1 }),
{
    if threads >= 1 {
        threads
    } else {
        1
    }
}

} // verus!
