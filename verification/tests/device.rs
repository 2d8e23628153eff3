use power_policy::action::device::AnyState as DeviceAnyState;
use power_policy::action::policy::AnyState as PolicyAnyState;
use power_policy::action::{ConnectedConsumer, ConnectedProvider, Detached, Idle, Kind};
use power_policy::capability::{ConsumerPowerCapability, PowerCapability, ProviderPowerCapability};
use power_policy::device::{
    Command, CommandData, Device, DeviceContainer, DeviceId, InternalState, Response,
    ResponseData, State, StateKind,
};
use power_policy::error::Error;
use power_policy::intrusive_list::NodeContainer;

fn five_watts() -> PowerCapability {
    PowerCapability { voltage_mv: 5000, current_ma: 1000 }
}

fn provider(capability: PowerCapability) -> ProviderPowerCapability {
    ProviderPowerCapability { capability }
}

fn consumer(capability: PowerCapability) -> ConsumerPowerCapability {
    ConsumerPowerCapability { capability }
}

/// Issues `command`, lets the driver claim it and answer `response`, and
/// returns what the issuer collects.
fn exchange(
    device: &mut Device,
    command: CommandData,
    response: Result<ResponseData, Error>,
) -> Option<Result<ResponseData, Error>> {
    let ticket = device.execute_device_command(command).unwrap();
    let request = device.receive().unwrap();
    assert_eq!(request.command(), command);
    assert_eq!(request.ticket(), ticket);
    assert!(device.respond(request, response));
    device.device_command_response(ticket)
}

#[test]
fn state_kind_is_the_tag_of_the_state() {
    let cap = five_watts();
    assert_eq!(State::Detached.kind(), StateKind::Detached);
    assert_eq!(State::Idle.kind(), StateKind::Idle);
    assert_eq!(State::ConnectedProvider(provider(cap)).kind(), StateKind::ConnectedProvider);
    assert_eq!(State::ConnectedConsumer(consumer(cap)).kind(), StateKind::ConnectedConsumer);
}

#[test]
fn device_state_kind_follows_the_stored_state() {
    let cap = five_watts();
    let mut device = Device::new(DeviceId(1));
    assert_eq!(device.state().kind(), StateKind::Detached);
    let _ = device.try_device_action::<Detached>().unwrap().attach();
    assert_eq!(device.state(), State::Idle);
    assert_eq!(device.state().kind(), StateKind::Idle);
    exchange(&mut device, CommandData::ConnectAsProvider(provider(cap)), Ok(ResponseData::Complete));
    assert_eq!(device.state().kind(), StateKind::ConnectedProvider);
    exchange(&mut device, CommandData::ConnectAsConsumer(consumer(cap)), Ok(ResponseData::Complete));
    assert_eq!(device.state().kind(), StateKind::ConnectedConsumer);
}

#[test]
fn complete_response_is_ok() {
    assert_eq!(ResponseData::Complete.complete_or_err(), Ok(()));
}

#[test]
fn command_targets() {
    let cap = five_watts();
    assert_eq!(
        CommandData::ConnectAsConsumer(consumer(cap)).target(),
        State::ConnectedConsumer(consumer(cap))
    );
    assert_eq!(
        CommandData::ConnectAsProvider(provider(cap)).target(),
        State::ConnectedProvider(provider(cap))
    );
    assert_eq!(CommandData::Disconnect.target(), State::Idle);
}

#[test]
fn plain_records_hold_what_they_are_given() {
    let command = Command { id: DeviceId(3), data: CommandData::Disconnect };
    assert_eq!(command.id, DeviceId(3));
    assert_eq!(command.data, CommandData::Disconnect);
    let response = Response { id: DeviceId(3), data: ResponseData::Complete };
    assert_eq!(response.id, DeviceId(3));
    assert_eq!(response.data, ResponseData::Complete);
    let internal = InternalState {
        state: State::Idle,
        consumer_capability: None,
        requested_provider_capability: Some(provider(five_watts())),
    };
    assert_eq!(internal.state.kind(), StateKind::Idle);
}

#[test]
fn fresh_device_is_detached() {
    let mut device = Device::new(DeviceId(7));
    assert_eq!(device.id(), DeviceId(7));
    assert_eq!(device.state(), State::Detached);
    assert_eq!(device.consumer_capability(), None);
    assert_eq!(device.provider_capability(), None);
    assert_eq!(device.requested_provider_capability(), None);
    assert!(!device.is_consumer());
    assert!(!device.is_provider());
    assert!(!device.get_node().is_linked());
    assert_eq!(device.get_power_policy_device().id(), DeviceId(7));
    match device.try_device_action::<Idle>() {
        Ok(_) => panic!("an idle action on a detached device"),
        Err(e) => assert_eq!(e, Error::InvalidState(StateKind::Idle, StateKind::Detached)),
    }
    assert_eq!(device.state(), State::Detached);
}

#[test]
fn try_action_names_expected_then_actual() {
    let mut device = Device::new(DeviceId(2));
    let _ = device.try_device_action::<Detached>().unwrap().attach();
    match device.try_device_action::<ConnectedProvider>() {
        Ok(_) => panic!("a provider action on an idle device"),
        Err(e) => assert_eq!(e, Error::InvalidState(StateKind::ConnectedProvider, StateKind::Idle)),
    }
    match device.try_policy_action::<ConnectedConsumer>() {
        Ok(_) => panic!("a consumer action on an idle device"),
        Err(e) => assert_eq!(e, Error::InvalidState(StateKind::ConnectedConsumer, StateKind::Idle)),
    }
    match device.try_policy_action::<Detached>() {
        Ok(_) => panic!("a detached action on an idle device"),
        Err(e) => assert_eq!(e, Error::InvalidState(StateKind::Detached, StateKind::Idle)),
    }
    assert!(device.try_device_action::<Idle>().is_ok());
    assert!(device.try_policy_action::<Idle>().is_ok());
    assert_eq!(device.state(), State::Idle);
}

#[test]
fn kinds_name_their_states() {
    assert_eq!(Detached::kind(), StateKind::Detached);
    assert_eq!(Idle::kind(), StateKind::Idle);
    assert_eq!(ConnectedProvider::kind(), StateKind::ConnectedProvider);
    assert_eq!(ConnectedConsumer::kind(), StateKind::ConnectedConsumer);
}

#[test]
fn any_state_follows_the_device() {
    let cap = five_watts();
    let mut device = Device::new(DeviceId(4));
    assert_eq!(device.device_action().kind(), StateKind::Detached);
    assert_eq!(device.policy_action().kind(), StateKind::Detached);
    assert!(matches!(device.device_action(), DeviceAnyState::Detached(_)));
    assert!(matches!(device.policy_action(), PolicyAnyState::Detached(_)));
    match device.device_action() {
        DeviceAnyState::Detached(handle) => {
            let _ = handle.attach();
        },
        _ => panic!("a fresh device is detached"),
    }
    assert!(matches!(device.device_action(), DeviceAnyState::Idle(_)));
    assert!(matches!(device.policy_action(), PolicyAnyState::Idle(_)));
    exchange(&mut device, CommandData::ConnectAsProvider(provider(cap)), Ok(ResponseData::Complete));
    assert!(matches!(device.device_action(), DeviceAnyState::ConnectedProvider(_)));
    assert!(matches!(device.policy_action(), PolicyAnyState::ConnectedProvider(_)));
    assert_eq!(device.policy_action().kind(), StateKind::ConnectedProvider);
    exchange(&mut device, CommandData::ConnectAsConsumer(consumer(cap)), Ok(ResponseData::Complete));
    assert!(matches!(device.device_action(), DeviceAnyState::ConnectedConsumer(_)));
    assert!(matches!(device.policy_action(), PolicyAnyState::ConnectedConsumer(_)));
    assert_eq!(device.device_action().kind(), StateKind::ConnectedConsumer);
}

#[test]
fn connect_as_consumer_makes_the_device_a_consumer() {
    let cap = consumer(PowerCapability { voltage_mv: 9000, current_ma: 3000 });
    let mut device = Device::new(DeviceId(5));
    let _ = device.try_device_action::<Detached>().unwrap().attach();
    let outcome = exchange(&mut device, CommandData::ConnectAsConsumer(cap), Ok(ResponseData::Complete));
    assert_eq!(outcome, Some(Ok(ResponseData::Complete)));
    assert_eq!(device.state(), State::ConnectedConsumer(cap));
    assert!(device.is_consumer());
    assert!(!device.is_provider());
    assert_eq!(device.provider_capability(), None);
}

#[test]
fn connect_as_provider_makes_the_device_a_provider() {
    let cap = provider(PowerCapability { voltage_mv: 20000, current_ma: 5000 });
    let mut device = Device::new(DeviceId(5));
    let _ = device.try_device_action::<Detached>().unwrap().attach();
    let outcome = exchange(&mut device, CommandData::ConnectAsProvider(cap), Ok(ResponseData::Complete));
    assert_eq!(outcome, Some(Ok(ResponseData::Complete)));
    assert_eq!(device.state(), State::ConnectedProvider(cap));
    assert!(device.is_provider());
    assert!(!device.is_consumer());
    assert_eq!(device.provider_capability(), Some(cap));
}

#[test]
fn disconnect_returns_a_connected_device_to_idle() {
    let cap = five_watts();
    let mut device = Device::new(DeviceId(6));
    exchange(&mut device, CommandData::ConnectAsConsumer(consumer(cap)), Ok(ResponseData::Complete));
    assert_eq!(device.state(), State::ConnectedConsumer(consumer(cap)));
    let outcome = exchange(&mut device, CommandData::Disconnect, Ok(ResponseData::Complete));
    assert_eq!(outcome, Some(Ok(ResponseData::Complete)));
    assert_eq!(device.state(), State::Idle);
    exchange(&mut device, CommandData::ConnectAsProvider(provider(cap)), Ok(ResponseData::Complete));
    assert_eq!(device.state(), State::ConnectedProvider(provider(cap)));
    exchange(&mut device, CommandData::Disconnect, Ok(ResponseData::Complete));
    assert_eq!(device.state(), State::Idle);
    assert!(!device.is_provider());
    assert!(!device.is_consumer());
}

#[test]
fn failed_command_leaves_the_state_alone() {
    let cap = five_watts();
    let mut device = Device::new(DeviceId(6));
    let _ = device.try_device_action::<Detached>().unwrap().attach();
    let failure = Error::InvalidState(StateKind::Idle, StateKind::Detached);
    let outcome = exchange(&mut device, CommandData::ConnectAsProvider(provider(cap)), Err(failure));
    assert_eq!(outcome, Some(Err(failure)));
    assert_eq!(device.state(), State::Idle);
}

#[test]
fn command_waits_until_the_driver_answers() {
    let cap = five_watts();
    let mut device = Device::new(DeviceId(8));
    let ticket = device.execute_device_command(CommandData::ConnectAsProvider(provider(cap))).unwrap();
    assert_eq!(ticket, 0);
    assert_eq!(device.device_command_response(ticket), None);
    let request = device.receive().unwrap();
    assert_eq!(device.device_command_response(ticket), None);
    assert_eq!(device.state(), State::Detached);
    assert!(device.receive().is_none());
    assert!(device.respond(request, Ok(ResponseData::Complete)));
    assert_eq!(device.state(), State::Detached);
    assert_eq!(device.device_command_response(ticket), Some(Ok(ResponseData::Complete)));
    assert_eq!(device.state(), State::ConnectedProvider(provider(cap)));
    assert_eq!(device.device_command_response(ticket), None);
}

#[test]
fn end_to_end() {
    let cap = provider(five_watts());
    let mut device = Device::new(DeviceId(7));
    match device.try_device_action::<Idle>() {
        Ok(_) => panic!("an idle action on a detached device"),
        Err(e) => assert_eq!(e, Error::InvalidState(StateKind::Idle, StateKind::Detached)),
    }
    assert!(matches!(device.device_action(), DeviceAnyState::Detached(_)));
    // The driver asks first and finds nothing; then the arbiter issues.
    assert!(device.receive().is_none());
    let ticket = device.execute_device_command(CommandData::ConnectAsProvider(cap)).unwrap();
    assert_eq!(device.device_command_response(ticket), None);
    let request = device.receive().unwrap();
    assert_eq!(request.command(), CommandData::ConnectAsProvider(cap));
    assert!(device.respond(request, Ok(ResponseData::Complete)));
    assert_eq!(device.device_command_response(ticket), Some(Ok(ResponseData::Complete)));
    assert_eq!(device.state(), State::ConnectedProvider(cap));
    assert_eq!(device.provider_capability(), Some(cap));
}

#[test]
fn commands_are_served_in_call_order() {
    let cap = five_watts();
    let commands = [
        CommandData::ConnectAsConsumer(consumer(cap)),
        CommandData::Disconnect,
        CommandData::ConnectAsProvider(provider(cap)),
        CommandData::Disconnect,
    ];
    let mut device = Device::new(DeviceId(9));
    let mut tickets = Vec::new();
    for command in commands {
        tickets.push(device.execute_device_command(command).unwrap());
    }
    assert_eq!(tickets, vec![0, 1, 2, 3]);
    // A later issuer finds nothing before its turn.
    assert_eq!(device.device_command_response(tickets[3]), None);
    for i in 0..commands.len() {
        let request = device.receive().unwrap();
        assert_eq!(request.ticket(), tickets[i]);
        assert_eq!(request.command(), commands[i]);
        assert!(device.receive().is_none());
        assert!(device.respond(request, Ok(ResponseData::Complete)));
        for later in (i + 1)..commands.len() {
            assert_eq!(device.device_command_response(tickets[later]), None);
        }
        assert!(device.receive().is_none());
        assert_eq!(device.device_command_response(tickets[i]), Some(Ok(ResponseData::Complete)));
        assert_eq!(device.state(), commands[i].target());
    }
    assert!(device.receive().is_none());
}

#[test]
fn abandoned_command_does_not_change_the_state() {
    let cap = five_watts();
    let mut device = Device::new(DeviceId(10));
    let first = device.execute_device_command(CommandData::ConnectAsConsumer(consumer(cap))).unwrap();
    let second = device.execute_device_command(CommandData::ConnectAsProvider(provider(cap))).unwrap();
    let request = device.receive().unwrap();
    device.abandon_device_command(first);
    // The command in flight is still answered; the answer is dropped.
    assert!(device.respond(request, Ok(ResponseData::Complete)));
    assert_eq!(device.device_command_response(first), None);
    assert_eq!(device.state(), State::Detached);
    let request = device.receive().unwrap();
    assert_eq!(request.ticket(), second);
    assert!(device.respond(request, Ok(ResponseData::Complete)));
    assert_eq!(device.device_command_response(second), Some(Ok(ResponseData::Complete)));
    assert_eq!(device.state(), State::ConnectedProvider(provider(cap)));
}

#[test]
fn closed_device_fails_commands() {
    let cap = five_watts();
    let mut device = Device::new(DeviceId(11));
    let waiting = device.execute_device_command(CommandData::ConnectAsConsumer(consumer(cap))).unwrap();
    device.close_command_channel();
    assert_eq!(device.device_command_response(waiting), Some(Err(Error::Closed)));
    assert_eq!(device.execute_device_command(CommandData::Disconnect), Err(Error::Closed));
    assert!(device.receive().is_none());
    assert_eq!(device.state(), State::Detached);
}

#[test]
fn detach_is_idempotent() {
    let cap = five_watts();
    let mut device = Device::new(DeviceId(12));
    let _ = device
        .try_device_action::<Detached>()
        .unwrap()
        .attach()
        .notify_consumer_power_capability(Some(consumer(cap)))
        .request_provider_power_capability(provider(cap));
    exchange(&mut device, CommandData::ConnectAsConsumer(consumer(cap)), Ok(ResponseData::Complete));
    assert_eq!(device.consumer_capability(), Some(consumer(cap)));
    assert_eq!(device.requested_provider_capability(), Some(provider(cap)));
    assert!(device.detach().is_ok());
    assert_eq!(device.state(), State::Detached);
    assert_eq!(device.consumer_capability(), None);
    assert_eq!(device.requested_provider_capability(), None);
    assert!(device.detach().is_ok());
    assert_eq!(device.state(), State::Detached);
    assert_eq!(device.consumer_capability(), None);
    assert_eq!(device.requested_provider_capability(), None);
    assert_eq!(device.id(), DeviceId(12));
}

#[test]
fn detach_from_every_state() {
    let cap = five_watts();
    let mut device = Device::new(DeviceId(13));
    assert!(device.detach().is_ok());
    assert_eq!(device.state(), State::Detached);
    let _ = device.detach().unwrap().attach();
    assert_eq!(device.state(), State::Idle);
    assert!(device.detach().is_ok());
    assert_eq!(device.state(), State::Detached);
    exchange(&mut device, CommandData::ConnectAsProvider(provider(cap)), Ok(ResponseData::Complete));
    assert!(device.detach().is_ok());
    assert_eq!(device.state(), State::Detached);
    exchange(&mut device, CommandData::ConnectAsConsumer(consumer(cap)), Ok(ResponseData::Complete));
    assert!(device.detach().is_ok());
    assert_eq!(device.state(), State::Detached);
}

#[test]
fn driver_actions_record_what_the_hardware_did() {
    let small = PowerCapability { voltage_mv: 5000, current_ma: 500 };
    let large = PowerCapability { voltage_mv: 15000, current_ma: 3000 };
    let mut device = Device::new(DeviceId(14));
    let idle = device.try_device_action::<Detached>().unwrap().attach();
    let idle = idle.notify_consumer_power_capability(Some(consumer(small)));
    let _ = idle.request_provider_power_capability(provider(large));
    assert_eq!(device.state(), State::Idle);
    assert_eq!(device.consumer_capability(), Some(consumer(small)));
    assert_eq!(device.requested_provider_capability(), Some(provider(large)));

    exchange(&mut device, CommandData::ConnectAsProvider(provider(large)), Ok(ResponseData::Complete));
    // Asking for what is already provided records nothing.
    let _ = device
        .try_device_action::<ConnectedProvider>()
        .unwrap()
        .notify_consumer_power_capability(None)
        .request_provider_power_capability(provider(large));
    assert_eq!(device.consumer_capability(), None);
    assert_eq!(device.requested_provider_capability(), Some(provider(large)));
    let _ = device
        .try_device_action::<ConnectedProvider>()
        .unwrap()
        .request_provider_power_capability(provider(small));
    assert_eq!(device.requested_provider_capability(), Some(provider(small)));
    let _ = device.try_device_action::<ConnectedProvider>().unwrap().disconnect();
    assert_eq!(device.state(), State::Idle);
    assert_eq!(device.requested_provider_capability(), Some(provider(small)));

    exchange(&mut device, CommandData::ConnectAsConsumer(consumer(small)), Ok(ResponseData::Complete));
    let _ = device.try_device_action::<ConnectedConsumer>().unwrap().disconnect();
    assert_eq!(device.state(), State::Idle);
    exchange(&mut device, CommandData::ConnectAsConsumer(consumer(small)), Ok(ResponseData::Complete));
    let _ = device.try_device_action::<ConnectedConsumer>().unwrap().detach();
    assert_eq!(device.state(), State::Detached);
    assert_eq!(device.consumer_capability(), None);
    assert_eq!(device.requested_provider_capability(), None);
}

#[test]
fn policy_actions_issue_commands() {
    let cap = five_watts();
    let mut device = Device::new(DeviceId(15));
    let _ = device.try_device_action::<Detached>().unwrap().attach();

    let ticket = device.try_policy_action::<Idle>().unwrap().connect_as_consumer(consumer(cap)).unwrap();
    let request = device.receive().unwrap();
    assert_eq!(request.command(), CommandData::ConnectAsConsumer(consumer(cap)));
    assert!(device.respond(request, Ok(ResponseData::Complete)));
    assert_eq!(device.device_command_response(ticket), Some(Ok(ResponseData::Complete)));
    assert_eq!(device.state(), State::ConnectedConsumer(consumer(cap)));

    let ticket = device.try_policy_action::<ConnectedConsumer>().unwrap().disconnect().unwrap();
    let request = device.receive().unwrap();
    assert_eq!(request.command(), CommandData::Disconnect);
    assert!(device.respond(request, Ok(ResponseData::Complete)));
    assert_eq!(device.device_command_response(ticket), Some(Ok(ResponseData::Complete)));
    assert_eq!(device.state(), State::Idle);

    let ticket = device.try_policy_action::<Idle>().unwrap().connect_provider(provider(cap)).unwrap();
    let request = device.receive().unwrap();
    assert_eq!(request.command(), CommandData::ConnectAsProvider(provider(cap)));
    assert!(device.respond(request, Ok(ResponseData::Complete)));
    assert_eq!(device.device_command_response(ticket), Some(Ok(ResponseData::Complete)));
    assert_eq!(device.state(), State::ConnectedProvider(provider(cap)));

    let ticket = device.try_policy_action::<ConnectedProvider>().unwrap().disconnect().unwrap();
    let request = device.receive().unwrap();
    assert_eq!(request.command(), CommandData::Disconnect);
    assert!(device.respond(request, Ok(ResponseData::Complete)));
    assert_eq!(device.device_command_response(ticket), Some(Ok(ResponseData::Complete)));
    assert_eq!(device.state(), State::Idle);

    device.close_command_channel();
    assert_eq!(
        device.try_policy_action::<Idle>().unwrap().connect_provider(provider(cap)),
        Err(Error::Closed)
    );
}
