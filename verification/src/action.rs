//! Typestate views over a device.
//!
//! A handle of this module borrows a device exclusively and carries, as a
//! type parameter, the state the device was found in when the handle was
//! made. The operations a handle offers are those that make sense in that
//! state. [`device`] holds the operations of the driver, which reports what
//! the hardware did; [`policy`] holds those of the policy arbiter, which
//! issues commands.

use vstd::prelude::*;
use crate::device::StateKind;

pub mod device;
pub mod policy;

verus! {

/// A state of the device, as a type.
pub trait Kind {
    /// The state that this type stands for.
    spec fn spec_kind() -> StateKind;

    /// Returns the state that this type stands for.
    fn kind() -> (kind: StateKind)
        ensures
            kind == Self::spec_kind(),
    ;
}

/// A state in which a port partner is present.
pub trait Attached: Kind {

}

/// No device attached.
pub struct Detached;

/// Device attached, neither providing nor consuming.
pub struct Idle;

/// Device providing power.
pub struct ConnectedProvider;

/// Device consuming power.
pub struct ConnectedConsumer;

impl Kind for Detached {
    open spec fn spec_kind() -> StateKind {
        StateKind::Detached
    }

    fn kind() -> (kind: StateKind) {
        StateKind::Detached
    }
}

impl Kind for Idle {
    open spec fn spec_kind() -> StateKind {
        StateKind::Idle
    }

    fn kind() -> (kind: StateKind) {
        StateKind::Idle
    }
}

impl Kind for ConnectedProvider {
    open spec fn spec_kind() -> StateKind {
        StateKind::ConnectedProvider
    }

    fn kind() -> (kind: StateKind) {
        StateKind::ConnectedProvider
    }
}

impl Kind for ConnectedConsumer {
    open spec fn spec_kind() -> StateKind {
        StateKind::ConnectedConsumer
    }

    fn kind() -> (kind: StateKind) {
        StateKind::ConnectedConsumer
    }
}

impl Attached for Idle {

}

impl Attached for ConnectedProvider {

}

impl Attached for ConnectedConsumer {

}

} // verus!
