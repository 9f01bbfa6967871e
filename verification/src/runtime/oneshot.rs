//! Channels that carry a single value.
use vstd::prelude::*;

verus! {

/// The sending half of a one-value channel.
pub trait Sender<T>: Send where T: Send {
    /// Sends the value; gives it back, unchanged, if the receiver is gone.
    fn send(self, value: T) -> (r: Result<(), T>)
        ensures
            r matches Err(v) ==> v == value,
    ;
}

} // verus!
