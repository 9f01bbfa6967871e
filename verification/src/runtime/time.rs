//! Timers.
use vstd::prelude::*;

verus! {

/// A future did not complete before its deadline.
#[derive(Debug, Clone, Copy, PartialEq, Eq)]
pub struct TimedOut {}

} // verus!
