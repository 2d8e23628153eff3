//! Policy-side actions: the commands the arbiter may issue.

use vstd::prelude::*;
use core::marker::PhantomData;
use crate::action::{ConnectedConsumer, ConnectedProvider, Detached, Idle, Kind};
use crate::capability::{ConsumerPowerCapability, ProviderPowerCapability};
use crate::device::{CommandData, StateKind};
use crate::error::Error;

verus! {

/// The policy-side actions that are open while the device is in state `S`.
#[non_exhaustive]
pub struct Policy<'a, S: Kind> {
    /// The device that the actions work on.
    pub device: &'a mut crate::device::Device,
    /// The state the device was found in.
    pub state: PhantomData<S>,
}

/// The policy-side actions of whichever state the device is in.
pub enum AnyState<'a> {
    /// The device is detached.
    Detached(Policy<'a, Detached>),
    /// The device is idle.
    Idle(Policy<'a, Idle>),
    /// The device is providing power.
    ConnectedProvider(Policy<'a, ConnectedProvider>),
    /// The device is consuming power.
    ConnectedConsumer(Policy<'a, ConnectedConsumer>),
}

impl<'a> AnyState<'a> {
    /// The state whose actions this value gives access to.
    pub open spec fn spec_kind(&self) -> StateKind {
        match self {
            AnyState::Detached(_) => StateKind::Detached,
            AnyState::Idle(_) => StateKind::Idle,
            AnyState::ConnectedProvider(_) => StateKind::ConnectedProvider,
            AnyState::ConnectedConsumer(_) => StateKind::ConnectedConsumer,
        }
    }

    /// Returns the state whose actions this value gives access to.
    pub fn kind(&self) -> (kind: StateKind)
        ensures
            kind == self.spec_kind(),
    {
        match self {
            AnyState::Detached(_) => StateKind::Detached,
            AnyState::Idle(_) => StateKind::Idle,
            AnyState::ConnectedProvider(_) => StateKind::ConnectedProvider,
            AnyState::ConnectedConsumer(_) => StateKind::ConnectedConsumer,
        }
    }
}

impl<'a> Policy<'a, Idle> {
    /// Commands the device to start consuming under `capability`. Returns the
    /// ticket of the command, or `Closed` if the driver is gone.
    pub fn connect_as_consumer(self, capability: ConsumerPowerCapability) -> (r: Result<u64, Error>)
        ensures
            (final(self.device)@, r) == old(self.device)@.execute_device_command(
                CommandData::ConnectAsConsumer(capability),
            ),
    {
        self.device.execute_device_command(CommandData::ConnectAsConsumer(capability))
    }

    /// Commands the device to start providing under `capability`. Returns the
    /// ticket of the command, or `Closed` if the driver is gone.
    pub fn connect_provider(self, capability: ProviderPowerCapability) -> (r: Result<u64, Error>)
        ensures
            (final(self.device)@, r) == old(self.device)@.execute_device_command(
                CommandData::ConnectAsProvider(capability),
            ),
    {
        self.device.execute_device_command(CommandData::ConnectAsProvider(capability))
    }
}

impl<'a> Policy<'a, ConnectedConsumer> {
    /// Commands the device to stop consuming. Returns the ticket of the
    /// command, or `Closed` if the driver is gone.
    pub fn disconnect(self) -> (r: Result<u64, Error>)
        ensures
            (final(self.device)@, r) == old(self.device)@.execute_device_command(
                CommandData::Disconnect,
            ),
    {
        self.device.execute_device_command(CommandData::Disconnect)
    }
}

impl<'a> Policy<'a, ConnectedProvider> {
    /// Commands the device to stop providing. Returns the ticket of the
    /// command, or `Closed` if the driver is gone.
    pub fn disconnect(self) -> (r: Result<u64, Error>)
        ensures
            (final(self.device)@, r) == old(self.device)@.execute_device_command(
                CommandData::Disconnect,
            ),
    {
        self.device.execute_device_command(CommandData::Disconnect)
    }
}

} // verus!
