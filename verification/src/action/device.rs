//! Driver-side actions: what the hardware was seen to do.

use vstd::prelude::*;
use core::marker::PhantomData;
use crate::action::{Attached, ConnectedConsumer, ConnectedProvider, Detached, Idle, Kind};
use crate::capability::{ConsumerPowerCapability, ProviderPowerCapability};
use crate::device::{DeviceView, State, StateKind};

verus! {

/// The driver-side actions that are open while the device is in state `S`.
#[non_exhaustive]
pub struct Device<'a, S: Kind> {
    /// The device that the actions work on.
    pub device: &'a mut crate::device::Device,
    /// The state the device was found in.
    pub state: PhantomData<S>,
}

/// The driver-side actions of whichever state the device is in.
pub enum AnyState<'a> {
    /// The device is detached.
    Detached(Device<'a, Detached>),
    /// The device is idle.
    Idle(Device<'a, Idle>),
    /// The device is providing power.
    ConnectedProvider(Device<'a, ConnectedProvider>),
    /// The device is consuming power.
    ConnectedConsumer(Device<'a, ConnectedConsumer>),
}

impl<'a> AnyState<'a> {
    /// The state whose actions this value gives access to.
    pub open spec fn spec_kind(&self) -> StateKind {
        match self {
            AnyState::Detached(_) => StateKind::Detached,
            AnyState::Idle(_) => StateKind::Idle,
            AnyState::ConnectedProvider(_) => StateKind::ConnectedProvider,
            AnyState::ConnectedConsumer(_) => StateKind::ConnectedConsumer,
        }
    }

    /// Returns the state whose actions this value gives access to.
    pub fn kind(&self) -> (kind: StateKind)
        ensures
            kind == self.spec_kind(),
    {
        match self {
            AnyState::Detached(_) => StateKind::Detached,
            AnyState::Idle(_) => StateKind::Idle,
            AnyState::ConnectedProvider(_) => StateKind::ConnectedProvider,
            AnyState::ConnectedConsumer(_) => StateKind::ConnectedConsumer,
        }
    }
}

/// What a request for a provider capability leaves on record: nothing new if
/// the device already provides under that capability, the capability
/// otherwise.
pub open spec fn spec_request_provider(
    device: DeviceView,
    capability: ProviderPowerCapability,
) -> DeviceView {
    if device.provider_capability() == Some(capability) {
        device
    } else {
        device.with_requested_provider_capability(Some(capability))
    }
}

impl<'a, S: Attached> Device<'a, S> {
    /// Records that the port partner is gone: the device becomes detached and
    /// forgets both capabilities on record.
    pub fn detach(self) -> (next: Device<'a, Detached>)
        ensures
            next.device@ == old(self.device)@.with_state(State::Detached).with_consumer_capability(
                None,
            ).with_requested_provider_capability(None),
            *final(next.device) == *final(self.device),
    {
        self.device.set_state(State::Detached);
        self.device.update_consumer_capability(None);
        self.device.update_requested_provider_capability(None);
        Device { device: self.device, state: PhantomData }
    }

    /// Records the consumer capability that the port partner offers now, or
    /// that it offers none.
    pub fn notify_consumer_power_capability(
        self,
        capability: Option<ConsumerPowerCapability>,
    ) -> (next: Device<'a, S>)
        ensures
            next.device@ == old(self.device)@.with_consumer_capability(capability),
            *final(next.device) == *final(self.device),
    {
        self.device.update_consumer_capability(capability);
        Device { device: self.device, state: PhantomData }
    }

    /// Records that the port partner asks to be provided with `capability`.
    /// Nothing is recorded if the device already provides under it.
    pub fn request_provider_power_capability(self, capability: ProviderPowerCapability) -> (next:
        Device<'a, S>)
        ensures
            next.device@ == spec_request_provider(old(self.device)@, capability),
            *final(next.device) == *final(self.device),
    {
        if self.device.provider_capability() == Some(capability) {
            return Device { device: self.device, state: PhantomData };
        }
        self.device.update_requested_provider_capability(Some(capability));
        Device { device: self.device, state: PhantomData }
    }
}

impl<'a> Device<'a, Detached> {
    /// Records that a port partner has appeared: the device becomes idle.
    pub fn attach(self) -> (next: Device<'a, Idle>)
        ensures
            next.device@ == old(self.device)@.with_state(State::Idle),
            *final(next.device) == *final(self.device),
    {
        self.device.set_state(State::Idle);
        Device { device: self.device, state: PhantomData }
    }
}

impl<'a> Device<'a, ConnectedProvider> {
    /// Records that the device has stopped providing: it becomes idle.
    pub fn disconnect(self) -> (next: Device<'a, Idle>)
        ensures
            next.device@ == old(self.device)@.with_state(State::Idle),
            *final(next.device) == *final(self.device),
    {
        self.device.set_state(State::Idle);
        Device { device: self.device, state: PhantomData }
    }
}

impl<'a> Device<'a, ConnectedConsumer> {
    /// Records that the device has stopped consuming: it becomes idle.
    pub fn disconnect(self) -> (next: Device<'a, Idle>)
        ensures
            next.device@ == old(self.device)@.with_state(State::Idle),
            *final(next.device) == *final(self.device),
    {
        self.device.set_state(State::Idle);
        Device { device: self.device, state: PhantomData }
    }
}

} // verus!
