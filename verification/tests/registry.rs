use power_policy::action::Detached;
use power_policy::device::{Device, DeviceContainer, DeviceId, DeviceView, State};
use power_policy::error::Error;
use power_policy::intrusive_list::{IntrusiveList, Node, NodeContainer};

#[test]
fn new_node_is_unlinked() {
    assert!(!Node::uninit().is_linked());
}

#[test]
fn empty_list() {
    let list = IntrusiveList::new();
    assert_eq!(list.len(), 0);
    assert_eq!(list.get(0), None);
    assert_eq!(list.iterate(), Vec::<DeviceId>::new());
}

#[test]
fn append_keeps_insertion_order() {
    let mut list = IntrusiveList::new();
    let mut devices: Vec<Device> = [5u8, 1, 9, 3].iter().map(|&id| Device::new(DeviceId(id))).collect();
    for device in devices.iter_mut() {
        assert_eq!(list.append(device), Ok(()));
        assert!(device.get_node().is_linked());
    }
    assert_eq!(list.len(), 4);
    assert_eq!(list.iterate(), vec![DeviceId(5), DeviceId(1), DeviceId(9), DeviceId(3)]);
    assert_eq!(list.get(0), Some(DeviceId(5)));
    assert_eq!(list.get(3), Some(DeviceId(3)));
    assert_eq!(list.get(4), None);
}

#[test]
fn second_append_fails_with_already_linked() {
    let mut list = IntrusiveList::new();
    let mut first = Device::new(DeviceId(1));
    let mut second = Device::new(DeviceId(2));
    assert_eq!(list.append(&mut first), Ok(()));
    assert_eq!(list.append(&mut second), Ok(()));
    assert_eq!(list.append(&mut first), Err(Error::AlreadyLinked));
    assert_eq!(list.iterate(), vec![DeviceId(1), DeviceId(2)]);
    assert_eq!(list.len(), 2);
    assert_eq!(list.append(&mut second), Err(Error::AlreadyLinked));
    assert_eq!(list.iterate(), vec![DeviceId(1), DeviceId(2)]);
}

#[test]
fn linked_container_is_refused_by_another_list() {
    let mut list = IntrusiveList::new();
    let mut other = IntrusiveList::new();
    let mut device = Device::new(DeviceId(1));
    let mut bystander = Device::new(DeviceId(2));
    assert_eq!(other.append(&mut bystander), Ok(()));
    assert_eq!(list.append(&mut device), Ok(()));
    assert_eq!(other.append(&mut device), Err(Error::AlreadyLinked));
    assert_eq!(other.iterate(), vec![DeviceId(2)]);
    assert_eq!(list.iterate(), vec![DeviceId(1)]);
}

#[test]
fn append_leaves_the_device_as_it_is() {
    let mut list = IntrusiveList::new();
    let mut device = Device::new(DeviceId(1));
    let _ = device.try_device_action::<Detached>().unwrap().attach();
    assert_eq!(list.append(&mut device), Ok(()));
    assert_eq!(device.state(), State::Idle);
    assert_eq!(device.id(), DeviceId(1));
    assert_eq!(list.append(&mut device), Err(Error::AlreadyLinked));
    assert_eq!(device.state(), State::Idle);
    assert!(device.get_node().is_linked());
}

/// A port that holds its power device next to data of its own.
struct Port {
    label: &'static str,
    power: Device,
}

impl DeviceContainer for Port {
    fn spec_power_policy_device(&self) -> DeviceView {
        unreachable!("models are never evaluated")
    }

    fn get_power_policy_device(&self) -> &Device {
        &self.power
    }

    fn get_power_policy_device_mut(&mut self) -> &mut Device {
        &mut self.power
    }
}

#[test]
fn list_takes_any_container_of_a_device() {
    let mut list = IntrusiveList::new();
    let mut bare = Device::new(DeviceId(1));
    let mut port = Port { label: "left", power: Device::new(DeviceId(2)) };
    assert_eq!(list.append(&mut bare), Ok(()));
    assert_eq!(list.append(&mut port), Ok(()));
    assert_eq!(list.append(&mut port), Err(Error::AlreadyLinked));
    assert_eq!(list.iterate(), vec![DeviceId(1), DeviceId(2)]);
    assert!(port.get_power_policy_device().get_node().is_linked());
    assert_eq!(port.get_power_policy_device().id(), DeviceId(2));
    assert_eq!(port.label, "left");
}
