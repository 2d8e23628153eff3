//! Errors reported by the device model.

use vstd::prelude::*;
use crate::device::StateKind;

verus! {

/// Why an operation was refused.
#[derive(Debug, Clone, Copy, PartialEq, Eq, Structural)]
pub enum Error {
    /// An action bound to one state was attempted in another: the state the
    /// action needs, then the state the device is in.
    InvalidState(StateKind, StateKind),
    /// The receiving side of the command channel is gone; no response will come.
    Closed,
    /// The container's link record is already threaded into a list.
    AlreadyLinked,
}

} // verus!
