//! The device entity: one port's state, its link record and its command channel.

use vstd::prelude::*;
use core::marker::PhantomData;
use crate::action;
use crate::capability::{ConsumerPowerCapability, ProviderPowerCapability};
use crate::deferred::{Channel, ChannelView, Request};
use crate::error::Error;
use crate::intrusive_list::{Node, NodeContainer};

pub mod laws;

verus! {

/// Identity of one power port, fixed for the lifetime of its device.
#[derive(Debug, Clone, Copy, PartialEq, Eq, Structural)]
pub struct DeviceId(pub u8);

/// The tag of a [`State`].
#[derive(Debug, Clone, Copy, PartialEq, Eq, Structural)]
pub enum StateKind {
    /// No device attached.
    Detached,
    /// Device is attached.
    Idle,
    /// Device is actively providing power.
    ConnectedProvider,
    /// Device is actively consuming power.
    ConnectedConsumer,
}

/// Current state of a power device.
#[derive(Debug, Clone, Copy, PartialEq, Eq, Structural)]
pub enum State {
    /// Device is attached, but is neither providing nor consuming power.
    Idle,
    /// Device is attached and is providing power under the given profile.
    ConnectedProvider(ProviderPowerCapability),
    /// Device is attached and is consuming power under the given profile.
    ConnectedConsumer(ConsumerPowerCapability),
    /// No device attached.
    Detached,
}

impl State {
    /// The tag of this state.
    pub open spec fn spec_kind(&self) -> StateKind {
        match self {
            State::Idle => StateKind::Idle,
            State::ConnectedProvider(_) => StateKind::ConnectedProvider,
            State::ConnectedConsumer(_) => StateKind::ConnectedConsumer,
            State::Detached => StateKind::Detached,
        }
    }

    /// Returns the tag of this state.
    #[verifier::when_used_as_spec(spec_kind)]
    pub fn kind(&self) -> (k: StateKind)
        ensures
            k == self.spec_kind(),
            (k == StateKind::Idle) == (self is Idle),
            (k == StateKind::ConnectedProvider) == (self is ConnectedProvider),
            (k == StateKind::ConnectedConsumer) == (self is ConnectedConsumer),
            (k == StateKind::Detached) == (self is Detached),
    {
        match self {
            State::Idle => StateKind::Idle,
            State::ConnectedProvider(_) => StateKind::ConnectedProvider,
            State::ConnectedConsumer(_) => StateKind::ConnectedConsumer,
            State::Detached => StateKind::Detached,
        }
    }
}

/// The mutable record of one device.
///
/// The two capability fields are written independently of `state` and may
/// lag behind it.
#[derive(Debug, Clone, Copy, PartialEq, Eq, Structural)]
pub struct InternalState {
    /// Current state of the device.
    pub state: State,
    /// Consumer capability last reported for the device.
    pub consumer_capability: Option<ConsumerPowerCapability>,
    /// Provider capability last requested by the device.
    pub requested_provider_capability: Option<ProviderPowerCapability>,
}

/// An instruction from the policy arbiter to a device.
#[derive(Debug, Clone, Copy, PartialEq, Eq, Structural)]
pub enum CommandData {
    /// Start consuming on this device.
    ConnectAsConsumer(ConsumerPowerCapability),
    /// Start providing power to the port partner on this device.
    ConnectAsProvider(ProviderPowerCapability),
    /// Stop providing or consuming on this device.
    Disconnect,
}

/// A command addressed to one device.
#[derive(Debug, Clone, Copy, PartialEq, Eq, Structural)]
pub struct Command {
    /// Target device.
    pub id: DeviceId,
    /// What the device is asked to do.
    pub data: CommandData,
}

impl CommandData {
    /// The state a device is in once it has carried out this command.
    pub open spec fn spec_target(self) -> State {
        match self {
            CommandData::ConnectAsConsumer(capability) => State::ConnectedConsumer(capability),
            CommandData::ConnectAsProvider(capability) => State::ConnectedProvider(capability),
            CommandData::Disconnect => State::Idle,
        }
    }

    /// Returns the state a device is in once it has carried out this command.
    #[verifier::when_used_as_spec(spec_target)]
    pub fn target(self) -> (state: State)
        ensures
            state == self.spec_target(),
    {
        match self {
            CommandData::ConnectAsConsumer(capability) => State::ConnectedConsumer(capability),
            CommandData::ConnectAsProvider(capability) => State::ConnectedProvider(capability),
            CommandData::Disconnect => State::Idle,
        }
    }
}

/// What a device answers to a command it carried out.
#[derive(Debug, Clone, Copy, PartialEq, Eq, Structural)]
pub enum ResponseData {
    /// The command was carried out.
    Complete,
}

impl ResponseData {
    /// Succeeds exactly when the response reports completion, which every
    /// response does.
    pub fn complete_or_err(self) -> (r: Result<(), Error>)
        ensures
            r == Ok::<(), Error>(()),
    {
        match self {
            ResponseData::Complete => Ok(()),
        }
    }
}

/// What a driver hands back for a command: the response, or why it failed.
pub type InternalResponseData = Result<ResponseData, Error>;

/// A response attributed to the device that gave it.
#[derive(Debug, Clone, Copy, PartialEq, Eq, Structural)]
pub struct Response {
    /// Responding device.
    pub id: DeviceId,
    /// What the device answered.
    pub data: ResponseData,
}

/// Mathematical model of a [`Device`].
pub struct DeviceView {
    /// Identity of the device.
    pub id: DeviceId,
    /// Whether the device is threaded into a registry list.
    pub linked: bool,
    /// The device's record of its own state.
    pub internal: InternalState,
    /// The command channel between the policy arbiter and the driver.
    pub command: ChannelView<CommandData, InternalResponseData>,
}

impl DeviceView {
    /// A device as it is right after construction: detached, in no list, with
    /// no capability on record and nothing in its command channel.
    pub open spec fn fresh(id: DeviceId) -> Self {
        DeviceView {
            id,
            linked: false,
            internal: InternalState {
                state: State::Detached,
                consumer_capability: None,
                requested_provider_capability: None,
            },
            command: ChannelView::fresh(),
        }
    }

    /// Current state of the device.
    pub open spec fn state(self) -> State {
        self.internal.state
    }

    /// Tag of the current state.
    pub open spec fn kind(self) -> StateKind {
        self.internal.state.spec_kind()
    }

    /// The device is consuming power.
    pub open spec fn is_consumer(self) -> bool {
        self.kind() == StateKind::ConnectedConsumer
    }

    /// The device is providing power.
    pub open spec fn is_provider(self) -> bool {
        self.kind() == StateKind::ConnectedProvider
    }

    /// The profile under which the device provides power, if it does.
    pub open spec fn provider_capability(self) -> Option<ProviderPowerCapability> {
        match self.internal.state {
            State::ConnectedProvider(capability) => Some(capability),
            _ => None,
        }
    }

    /// The device with its state replaced.
    pub open spec fn with_state(self, state: State) -> Self {
        DeviceView { internal: InternalState { state, ..self.internal }, ..self }
    }

    /// The device with its consumer capability replaced.
    pub open spec fn with_consumer_capability(
        self,
        capability: Option<ConsumerPowerCapability>,
    ) -> Self {
        DeviceView {
            internal: InternalState { consumer_capability: capability, ..self.internal },
            ..self
        }
    }

    /// The device with its requested provider capability replaced.
    pub open spec fn with_requested_provider_capability(
        self,
        capability: Option<ProviderPowerCapability>,
    ) -> Self {
        DeviceView {
            internal: InternalState { requested_provider_capability: capability, ..self.internal },
            ..self
        }
    }

    /// The device after its port partner has gone: detached, with no
    /// capability on record. A detached device stays as it is.
    pub open spec fn detach(self) -> Self {
        if self.kind() == StateKind::Detached {
            self
        } else {
            DeviceView {
                internal: InternalState {
                    state: State::Detached,
                    consumer_capability: None,
                    requested_provider_capability: None,
                },
                ..self
            }
        }
    }

    /// Issuing a command: it enters the command channel.
    pub open spec fn execute_device_command(self, command: CommandData) -> (
        Self,
        Result<u64, Error>,
    ) {
        let (channel, r) = self.command.execute(command);
        (DeviceView { command: channel, ..self }, r)
    }

    /// The driver claims the next command.
    pub open spec fn receive(self) -> (Self, Option<(u64, CommandData)>) {
        let (channel, r) = self.command.receive();
        (DeviceView { command: channel, ..self }, r)
    }

    /// The driver answers the command it claimed.
    pub open spec fn respond(self, ticket: u64, response: InternalResponseData) -> (Self, bool) {
        let (channel, accepted) = self.command.respond(ticket, response);
        (DeviceView { command: channel, ..self }, accepted)
    }

    /// The issuer looks for the outcome of a command. When the driver has
    /// reported completion, the device takes the state that the command
    /// leads to; a failure reported by the driver, or the loss of the driver,
    /// leaves the state alone.
    pub open spec fn device_command_response(self, ticket: u64) -> (
        Self,
        Option<Result<ResponseData, Error>>,
    ) {
        let (channel, r) = self.command.poll_response(ticket);
        let served = DeviceView { command: channel, ..self };
        match r {
            Some(Ok((command, Ok(data)))) => (
                served.with_state(command.spec_target()),
                Some(Ok(data)),
            ),
            Some(Ok((_, Err(e)))) => (served, Some(Err(e))),
            Some(Err(e)) => (served, Some(Err(e))),
            None => (served, None),
        }
    }

    /// The issuer of a command gives up on it.
    pub open spec fn abandon_device_command(self, ticket: u64) -> Self {
        DeviceView { command: self.command.abandon(ticket), ..self }
    }

    /// The driver goes away for good.
    pub open spec fn close_command_channel(self) -> Self {
        DeviceView { command: self.command.close(), ..self }
    }
}

/// One power port: its identity, its state and its command channel.
pub struct Device {
    node: Node,
    id: DeviceId,
    state: InternalState,
    command: Channel<CommandData, InternalResponseData>,
}

impl View for Device {
    type V = DeviceView;

    closed spec fn view(&self) -> DeviceView {
        DeviceView {
            id: self.id,
            linked: self.node@,
            internal: self.state,
            command: self.command@,
        }
    }
}

impl Device {
    /// Creates a detached device that is in no list.
    pub fn new(id: DeviceId) -> (device: Self)
        ensures
            device@ == DeviceView::fresh(id),
    {
        Device {
            node: Node::uninit(),
            id,
            state: InternalState {
                state: State::Detached,
                consumer_capability: None,
                requested_provider_capability: None,
            },
            command: Channel::new(),
        }
    }

    /// Returns the identity of the device.
    pub fn id(&self) -> (id: DeviceId)
        ensures
            id == self@.id,
    {
        self.id
    }

    /// Returns the current state of the device.
    pub fn state(&self) -> (state: State)
        ensures
            state == self@.state(),
    {
        self.state.state
    }

    /// Returns the consumer capability on record.
    pub fn consumer_capability(&self) -> (capability: Option<ConsumerPowerCapability>)
        ensures
            capability == self@.internal.consumer_capability,
    {
        self.state.consumer_capability
    }

    /// Returns true if the device is consuming power.
    pub fn is_consumer(&self) -> (consuming: bool)
        ensures
            consuming == self@.is_consumer(),
    {
        self.state().kind() == StateKind::ConnectedConsumer
    }

    /// Returns the profile under which the device provides power, and nothing
    /// unless it is providing.
    pub fn provider_capability(&self) -> (capability: Option<ProviderPowerCapability>)
        ensures
            capability == self@.provider_capability(),
            capability is Some <==> self@.is_provider(),
    {
        match self.state() {
            State::ConnectedProvider(capability) => Some(capability),
            _ => None,
        }
    }

    /// Returns the provider capability that the device last asked for.
    pub fn requested_provider_capability(&self) -> (capability: Option<ProviderPowerCapability>)
        ensures
            capability == self@.internal.requested_provider_capability,
    {
        self.state.requested_provider_capability
    }

    /// Returns true if the device is providing power.
    pub fn is_provider(&self) -> (providing: bool)
        ensures
            providing == self@.is_provider(),
    {
        self.state().kind() == StateKind::ConnectedProvider
    }

    /// Issues a command to the driver and returns the ticket under which its
    /// outcome can be collected with [`Device::device_command_response`]. The
    /// command is accepted in any state of the device. Fails with `Closed`
    /// once the driver is gone. For the policy arbiter.
    pub fn execute_device_command(&mut self, command: CommandData) -> (r: Result<u64, Error>)
        ensures
            (final(self)@, r) == old(self)@.execute_device_command(command),
    {
        self.command.execute(command)
    }

    /// Looks for the outcome of the command issued under `ticket`. Returns
    /// nothing while the command waits or is in flight. Once the driver has
    /// answered, returns the answer, and if the answer reports completion the
    /// device takes the state that the command leads to. Returns `Closed`
    /// when the driver is gone and left no answer. For the policy arbiter.
    pub fn device_command_response(&mut self, ticket: u64) -> (r: Option<
        Result<ResponseData, Error>,
    >)
        ensures
            (final(self)@, r) == old(self)@.device_command_response(ticket),
    {
        match self.command.poll_response(ticket) {
            Some(Ok((command, Ok(data)))) => {
                match data.complete_or_err() {
                    Ok(()) => {
                        self.set_state(command.target());
                        Some(Ok(data))
                    },
                    Err(e) => Some(Err(e)),
                }
            },
            Some(Ok((_, Err(e)))) => Some(Err(e)),
            Some(Err(e)) => Some(Err(e)),
            None => None,
        }
    }

    /// Gives up on the command issued under `ticket`: its outcome will not be
    /// collected and will not change the state of the device. A command in
    /// flight still reaches the driver. For the policy arbiter.
    pub fn abandon_device_command(&mut self, ticket: u64)
        ensures
            final(self)@ == old(self)@.abandon_device_command(ticket),
    {
        self.command.abandon(ticket);
    }

    /// Claims the next command for the driver, or returns nothing while no
    /// command can be claimed. The handle must be given back to
    /// [`Device::respond`] exactly once.
    pub fn receive(&mut self) -> (r: Option<Request<CommandData>>)
        ensures
            final(self)@ == old(self)@.receive().0,
            match r {
                Some(request) => old(self)@.receive().1 == Some(request@),
                None => old(self)@.receive().1 is None,
            },
    {
        self.command.receive()
    }

    /// Answers the command behind `request`. Returns whether the answer was
    /// due; one that was not due changes nothing. For the driver.
    pub fn respond(&mut self, request: Request<CommandData>, response: InternalResponseData) -> (accepted:
        bool)
        ensures
            (final(self)@, accepted) == old(self)@.respond(request@.0, response),
    {
        self.command.respond(request, response)
    }

    /// Declares the driver gone for good: commands that wait or are in
    /// flight, and all later ones, fail with `Closed`.
    pub fn close_command_channel(&mut self)
        ensures
            final(self)@ == old(self)@.close_command_channel(),
    {
        self.command.close();
    }

    /// Replaces the state of the device.
    pub(crate) fn set_state(&mut self, new_state: State)
        ensures
            final(self)@ == old(self)@.with_state(new_state),
    {
        self.state.state = new_state;
    }

    /// Replaces the consumer capability on record.
    pub(crate) fn update_consumer_capability(
        &mut self,
        capability: Option<ConsumerPowerCapability>,
    )
        ensures
            final(self)@ == old(self)@.with_consumer_capability(capability),
    {
        self.state.consumer_capability = capability;
    }

    /// Replaces the requested provider capability on record.
    pub(crate) fn update_requested_provider_capability(
        &mut self,
        capability: Option<ProviderPowerCapability>,
    )
        ensures
            final(self)@ == old(self)@.with_requested_provider_capability(capability),
    {
        self.state.requested_provider_capability = capability;
    }

    /// Replaces the link record.
    pub(crate) fn set_node(&mut self, node: Node)
        ensures
            final(self)@ == (DeviceView { linked: node@, ..old(self)@ }),
    {
        self.node = node;
    }

    /// Gives access to the driver-side actions of state `S`, provided the
    /// device is in that state now. Otherwise fails with `InvalidState`,
    /// naming the state asked for and the state found, and changes nothing.
    pub fn try_device_action<S: action::Kind>(&mut self) -> (r: Result<
        action::device::Device<'_, S>,
        Error,
    >)
        ensures
            match r {
                Ok(handle) => {
                    &&& old(self)@.kind() == S::spec_kind()
                    &&& *handle.device == *old(self)
                    &&& *final(handle.device) == *final(self)
                },
                Err(e) => {
                    &&& old(self)@.kind() != S::spec_kind()
                    &&& e == Error::InvalidState(S::spec_kind(), old(self)@.kind())
                    &&& *final(self) == *old(self)
                },
            },
    {
        let state = self.state().kind();
        if S::kind() != state {
            return Err(Error::InvalidState(S::kind(), state));
        }
        Ok(action::device::Device { device: self, state: PhantomData })
    }

    /// Gives access to the driver-side actions of whatever state the device
    /// is in.
    pub fn device_action(&mut self) -> (r: action::device::AnyState<'_>)
        ensures
            match r {
                action::device::AnyState::Detached(handle) => {
                    &&& old(self)@.kind() == StateKind::Detached
                    &&& *handle.device == *old(self)
                    &&& *final(handle.device) == *final(self)
                },
                action::device::AnyState::Idle(handle) => {
                    &&& old(self)@.kind() == StateKind::Idle
                    &&& *handle.device == *old(self)
                    &&& *final(handle.device) == *final(self)
                },
                action::device::AnyState::ConnectedProvider(handle) => {
                    &&& old(self)@.kind() == StateKind::ConnectedProvider
                    &&& *handle.device == *old(self)
                    &&& *final(handle.device) == *final(self)
                },
                action::device::AnyState::ConnectedConsumer(handle) => {
                    &&& old(self)@.kind() == StateKind::ConnectedConsumer
                    &&& *handle.device == *old(self)
                    &&& *final(handle.device) == *final(self)
                },
            },
    {
        match self.state().kind() {
            StateKind::Detached => action::device::AnyState::Detached(
                action::device::Device { device: self, state: PhantomData },
            ),
            StateKind::Idle => action::device::AnyState::Idle(
                action::device::Device { device: self, state: PhantomData },
            ),
            StateKind::ConnectedProvider => action::device::AnyState::ConnectedProvider(
                action::device::Device { device: self, state: PhantomData },
            ),
            StateKind::ConnectedConsumer => action::device::AnyState::ConnectedConsumer(
                action::device::Device { device: self, state: PhantomData },
            ),
        }
    }

    /// Gives access to the policy-side actions of state `S`, provided the
    /// device is in that state now. Otherwise fails with `InvalidState`,
    /// naming the state asked for and the state found, and changes nothing.
    pub fn try_policy_action<S: action::Kind>(&mut self) -> (r: Result<
        action::policy::Policy<'_, S>,
        Error,
    >)
        ensures
            match r {
                Ok(handle) => {
                    &&& old(self)@.kind() == S::spec_kind()
                    &&& *handle.device == *old(self)
                    &&& *final(handle.device) == *final(self)
                },
                Err(e) => {
                    &&& old(self)@.kind() != S::spec_kind()
                    &&& e == Error::InvalidState(S::spec_kind(), old(self)@.kind())
                    &&& *final(self) == *old(self)
                },
            },
    {
        let state = self.state().kind();
        if S::kind() != state {
            return Err(Error::InvalidState(S::kind(), state));
        }
        Ok(action::policy::Policy { device: self, state: PhantomData })
    }

    /// Gives access to the policy-side actions of whatever state the device
    /// is in.
    pub fn policy_action(&mut self) -> (r: action::policy::AnyState<'_>)
        ensures
            match r {
                action::policy::AnyState::Detached(handle) => {
                    &&& old(self)@.kind() == StateKind::Detached
                    &&& *handle.device == *old(self)
                    &&& *final(handle.device) == *final(self)
                },
                action::policy::AnyState::Idle(handle) => {
                    &&& old(self)@.kind() == StateKind::Idle
                    &&& *handle.device == *old(self)
                    &&& *final(handle.device) == *final(self)
                },
                action::policy::AnyState::ConnectedProvider(handle) => {
                    &&& old(self)@.kind() == StateKind::ConnectedProvider
                    &&& *handle.device == *old(self)
                    &&& *final(handle.device) == *final(self)
                },
                action::policy::AnyState::ConnectedConsumer(handle) => {
                    &&& old(self)@.kind() == StateKind::ConnectedConsumer
                    &&& *handle.device == *old(self)
                    &&& *final(handle.device) == *final(self)
                },
            },
    {
        match self.state().kind() {
            StateKind::Detached => action::policy::AnyState::Detached(
                action::policy::Policy { device: self, state: PhantomData },
            ),
            StateKind::Idle => action::policy::AnyState::Idle(
                action::policy::Policy { device: self, state: PhantomData },
            ),
            StateKind::ConnectedProvider => action::policy::AnyState::ConnectedProvider(
                action::policy::Policy { device: self, state: PhantomData },
            ),
            StateKind::ConnectedConsumer => action::policy::AnyState::ConnectedConsumer(
                action::policy::Policy { device: self, state: PhantomData },
            ),
        }
    }

    /// Detaches the device, whatever state it is in, and gives access to the
    /// driver-side actions of the detached state. A device that is already
    /// detached is left as it is. Never fails.
    pub fn detach(&mut self) -> (r: Result<action::device::Device<'_, action::Detached>, Error>)
        ensures
            match r {
                Ok(handle) => {
                    &&& handle.device@ == old(self)@.detach()
                    &&& handle.device@.state() == State::Detached
                    &&& *final(handle.device) == *final(self)
                },
                Err(_) => false,
            },
    {
        match self.device_action() {
            action::device::AnyState::Detached(state) => Ok(state),
            action::device::AnyState::Idle(state) => Ok(state.detach()),
            action::device::AnyState::ConnectedProvider(state) => Ok(state.detach()),
            action::device::AnyState::ConnectedConsumer(state) => Ok(state.detach()),
        }
    }
}

impl NodeContainer for Device {
    open spec fn spec_linked(&self) -> bool {
        self@.linked
    }

    fn get_node(&self) -> (node: &Node) {
        &self.node
    }
}

/// A type that holds a device.
pub trait DeviceContainer {
    /// The model of the device that this container holds.
    spec fn spec_power_policy_device(&self) -> DeviceView;

    /// Returns the device that this container holds.
    fn get_power_policy_device(&self) -> (device: &Device)
        ensures
            device@ == self.spec_power_policy_device(),
    ;

    /// Returns the device that this container holds, for changing it. What is
    /// done to the device is done to the device in the container.
    fn get_power_policy_device_mut(&mut self) -> (device: &mut Device)
        ensures
            device@ == old(self).spec_power_policy_device(),
            final(self).spec_power_policy_device() == final(device)@,
    ;
}

impl DeviceContainer for Device {
    open spec fn spec_power_policy_device(&self) -> DeviceView {
        self@
    }

    fn get_power_policy_device(&self) -> (device: &Device)
        ensures
            *device == *self,
    {
        self
    }

    fn get_power_policy_device_mut(&mut self) -> (device: &mut Device)
        ensures
            *device == *old(self),
            *final(self) == *final(device),
    {
        self
    }
}

} // verus!
