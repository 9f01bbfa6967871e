//! Bounded multi-producer, single-consumer channels.
use vstd::prelude::*;

verus! {

/// Why a value could not be sent without waiting; the value comes back with it.
#[derive(Clone, Copy, PartialEq, Eq)]
pub enum TrySendError<T> {
    /// The channel has no free capacity now.
    Full(T),
    /// The receiver is gone: no value will ever be received.
    Closed(T),
}

impl<T> TrySendError<T> {
    /// The value that was not sent.
    pub open spec fn spec_into_inner(self) -> T {
        match self {
            TrySendError::Full(val) => val,
            TrySendError::Closed(val) => val,
        }
    }

    /// Gives back the value that was not sent.
    pub fn into_inner(self) -> (r: T)
        ensures
            r == self.spec_into_inner(),
    {
        match self {
            TrySendError::Full(val) => val,
            TrySendError::Closed(val) => val,
        }
    }

    /// The error's message.
    pub fn description(&self) -> (r: &'static str)
        ensures
            self is Full ==> r@ == "no available capacity"@,
            self is Closed ==> r@ == "channel closed"@,
    {
        match self {
            TrySendError::Full(..) => "no available capacity",
            TrySendError::Closed(..) => "channel closed",
        }
    }
}

/// Why a receive produced no value.
#[derive(Debug, Clone, Copy, PartialEq, Eq)]
pub enum TryRecvError {
    /// The channel is empty but its senders are still connected.
    Empty,
    /// All senders are gone: nothing will ever arrive.
    Disconnected,
}

impl TryRecvError {
    /// The error's message.
    pub fn description(&self) -> (r: &'static str)
        ensures
            *self == TryRecvError::Empty ==> r@ == "receiving on an empty channel"@,
            *self == TryRecvError::Disconnected ==> r@ == "receiving on a closed channel"@,
    {
        match self {
            TryRecvError::Empty => "receiving on an empty channel",
            TryRecvError::Disconnected => "receiving on a closed channel",
        }
    }
}

/// The sending half of a channel.
pub trait Sender<T>: Send where T: Send {
    /// Sends `value` if the channel has room now; gives it back otherwise. A refused
    /// value comes back unchanged, whichever the reason.
    fn try_send(&self, value: T) -> (r: Result<(), TrySendError<T>>)
        ensures
            r matches Err(e) ==> e.spec_into_inner() == value,
    ;
}

} // verus!
