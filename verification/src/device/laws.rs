//! What holds of every device.

use vstd::prelude::*;
use crate::deferred::runs::{Run, Step};
use crate::device::{
    CommandData, DeviceId, DeviceView, InternalResponseData, ResponseData, State, StateKind,
};
use crate::error::Error;

verus! {

/// The kind of a state is the tag of its payload: a state is of a kind
/// exactly when it is the variant of that name.
pub proof fn law_kind_is_tag(state: State)
    ensures
        state.spec_kind() == StateKind::Detached <==> state is Detached,
        state.spec_kind() == StateKind::Idle <==> state is Idle,
        state.spec_kind() == StateKind::ConnectedProvider <==> state is ConnectedProvider,
        state.spec_kind() == StateKind::ConnectedConsumer <==> state is ConnectedConsumer,
{
}

/// What a device reports about itself is read off its one stored state: the
/// kind is the tag of that state, the device consumes or provides exactly
/// when that state is the connected state of that name, and a provider
/// capability is reported exactly when the device provides, whatever else is
/// on record.
pub proof fn law_device_reports_stored_state(device: DeviceView)
    ensures
        device.kind() == device.state().spec_kind(),
        device.is_consumer() <==> device.state() is ConnectedConsumer,
        device.is_provider() <==> device.state() is ConnectedProvider,
        !(device.is_consumer() && device.is_provider()),
        device.provider_capability() is Some <==> device.is_provider(),
        device.is_provider() ==> device.state() == State::ConnectedProvider(
            device.provider_capability().unwrap(),
        ),
{
}

/// A device is constructed detached, whatever its identity: its kind is
/// `Detached`, which is not the kind that an action of the idle state asks
/// for. It is in no list, and nothing is in its command channel.
pub proof fn law_fresh_device_is_detached(id: DeviceId)
    ensures
        DeviceView::fresh(id).state() == State::Detached,
        DeviceView::fresh(id).kind() == StateKind::Detached,
        DeviceView::fresh(id).kind() != StateKind::Idle,
        !DeviceView::fresh(id).linked,
        DeviceView::fresh(id).command.is_idle(),
{
}

/// Looking for the outcome of a command touches nothing but the command
/// channel and, on success, the state: the identity, the link mark and the
/// two capabilities on record stay. The state changes only when a completed
/// command is collected, and then it becomes the state that the command in
/// the mailbox leads to.
pub proof fn law_response_changes_state_only(device: DeviceView, ticket: u64)
    ensures
        ({
            let (after, outcome) = device.device_command_response(ticket);
            &&& after.id == device.id
            &&& after.linked == device.linked
            &&& after.internal.consumer_capability == device.internal.consumer_capability
            &&& after.internal.requested_provider_capability
                == device.internal.requested_provider_capability
            &&& after.command == device.command.poll_response(ticket).0
            &&& outcome matches Some(Ok(_)) ==> device.command.answered(ticket) && after.state()
                == device.command.mailbox.unwrap().command.spec_target()
            &&& !(outcome matches Some(Ok(_))) ==> after.state() == device.state()
        }),
{
}

/// When a command succeeds, the device is in the state that the command
/// leads to. Whatever has happened on the command channel of a device since
/// it was constructed, commands given up and the loss of the driver
/// included, if the issuer of the `i`-th command then finds that the command
/// was completed, the device is at once in the state that this very command
/// leads to: consuming under the capability given with `ConnectAsConsumer`,
/// and then not providing; providing under the capability given with
/// `ConnectAsProvider`; idle after `Disconnect`. This holds of every
/// sequence of steps shorter than 2^64, so that tickets do not run out.
pub proof fn law_completed_command_sets_state(
    device: DeviceView,
    steps: Seq<Step<CommandData, InternalResponseData>>,
    i: int,
)
    requires
        steps.len() <= u64::MAX,
        0 <= i < Run::<CommandData, InternalResponseData>::start().run(steps).issued.len(),
        device.command == Run::<CommandData, InternalResponseData>::start().run(steps).channel,
    ensures
        ({
            let (ticket, command) = Run::<CommandData, InternalResponseData>::start().run(
                steps,
            ).issued[i];
            let (after, outcome) = device.device_command_response(ticket);
            outcome matches Some(Ok(_)) ==> {
                &&& outcome == Some(Ok::<ResponseData, Error>(ResponseData::Complete))
                &&& after.state() == command.spec_target()
                &&& command matches CommandData::ConnectAsConsumer(capability) ==> after.state()
                    == State::ConnectedConsumer(capability) && after.is_consumer()
                    && !after.is_provider()
                &&& command matches CommandData::ConnectAsProvider(capability) ==> after.state()
                    == State::ConnectedProvider(capability) && after.is_provider()
                    && !after.is_consumer()
                &&& command == CommandData::Disconnect ==> after.state() == State::Idle
            }
        }),
{
    crate::deferred::runs::law_answer_belongs_to_request(steps, i);
}

/// A command that is issued on a device with an open, idle command channel,
/// claimed by the driver, answered with completion and collected brings the
/// device into the state that the command leads to, and leaves the channel
/// idle. Every step of the exchange succeeds, the driver is handed the
/// command as it was issued, and nothing but the state and the channel
/// changes.
pub proof fn law_command_round_trip(device: DeviceView, command: CommandData)
    requires
        device.command.is_idle(),
        !device.command.closed,
    ensures
        ({
            let (issued, ticket) = device.execute_device_command(command);
            let (claimed, request) = issued.receive();
            let (answered, accepted) = claimed.respond(
                device.command.next_ticket,
                Ok(ResponseData::Complete),
            );
            let (done, outcome) = answered.device_command_response(device.command.next_ticket);
            &&& ticket == Ok::<u64, Error>(device.command.next_ticket)
            &&& issued.device_command_response(device.command.next_ticket).1 is None
            &&& request == Some((device.command.next_ticket, command))
            &&& accepted
            &&& outcome == Some(Ok::<ResponseData, Error>(ResponseData::Complete))
            &&& done.state() == command.spec_target()
            &&& done.command.is_idle()
            &&& done.with_state(device.state()).internal == device.internal
            &&& done.id == device.id
            &&& done.linked == device.linked
        }),
{
    let (issued, ticket) = device.execute_device_command(command);
    assert(issued.command.waiting =~= Seq::empty());
}

/// A failure that the driver reports reaches the issuer and leaves the state
/// of the device alone.
pub proof fn law_failed_command_keeps_state(device: DeviceView, command: CommandData, e: Error)
    requires
        device.command.is_idle(),
        !device.command.closed,
    ensures
        ({
            let (issued, ticket) = device.execute_device_command(command);
            let (claimed, request) = issued.receive();
            let (answered, accepted) = claimed.respond(device.command.next_ticket, Err(e));
            let (done, outcome) = answered.device_command_response(device.command.next_ticket);
            &&& accepted
            &&& outcome == Some(Err::<ResponseData, Error>(e))
            &&& done.internal == device.internal
            &&& done.command.is_idle()
        }),
{
    let (issued, ticket) = device.execute_device_command(command);
    assert(issued.command.waiting =~= Seq::empty());
}

/// Detaching is idempotent: it leaves the device detached, and detaching a
/// second time changes nothing.
pub proof fn law_detach_is_idempotent(device: DeviceView)
    ensures
        device.detach().state() == State::Detached,
        device.detach().detach() == device.detach(),
        device.detach().id == device.id,
        device.detach().linked == device.linked,
        device.detach().command == device.command,
{
}

} // verus!
