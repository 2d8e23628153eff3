//! Registry list threaded through link records that the containers own.
//!
//! A container embeds one [`Node`]. The list never holds a container: it
//! records the identity of each container in insertion order and marks the
//! container's link record as taken, so that a container can be in at most
//! one place of at most one list.

use vstd::prelude::*;
use crate::device::{DeviceContainer, DeviceId, DeviceView};
use crate::error::Error;

verus! {

/// The link record embedded in a container. Its model is whether the
/// container is threaded into a list.
pub struct Node {
    linked: bool,
}

impl View for Node {
    type V = bool;

    closed spec fn view(&self) -> bool {
        self.linked
    }
}

impl Node {
    /// Creates the link record of a container that is in no list.
    pub fn uninit() -> (node: Node)
        ensures
            !node@,
    {
        Node { linked: false }
    }

    /// Returns whether the container is threaded into a list.
    pub fn is_linked(&self) -> (linked: bool)
        ensures
            linked == self@,
    {
        self.linked
    }
}

/// A type that embeds a link record.
pub trait NodeContainer {
    /// Whether this container is threaded into a list.
    spec fn spec_linked(&self) -> bool;

    /// Returns the embedded link record.
    fn get_node(&self) -> (node: &Node)
        ensures
            node@ == self.spec_linked(),
    ;
}

/// What appending a container does to the recorded identities and to the
/// container's link mark, and what it reports: a container that is already
/// linked is refused and nothing changes; any other goes to the tail.
pub open spec fn spec_append(list: Seq<DeviceId>, linked: bool, id: DeviceId) -> (
    Seq<DeviceId>,
    bool,
    Result<(), Error>,
) {
    if linked {
        (list, linked, Err(Error::AlreadyLinked))
    } else {
        (list.push(id), true, Ok(()))
    }
}

/// An insertion-ordered registry of devices. Its model is the sequence of the
/// identities of the devices appended so far.
pub struct IntrusiveList {
    order: Vec<DeviceId>,
}

impl View for IntrusiveList {
    type V = Seq<DeviceId>;

    closed spec fn view(&self) -> Seq<DeviceId> {
        self.order@
    }
}

impl IntrusiveList {
    /// Creates an empty list.
    pub fn new() -> (list: Self)
        ensures
            list@ == Seq::<DeviceId>::empty(),
    {
        IntrusiveList { order: Vec::new() }
    }

    /// Appends the device in `container` at the tail and marks its link
    /// record as taken. Fails with `AlreadyLinked`, changing neither the list
    /// nor the device, if the link record is already part of a list, this one
    /// or another.
    pub fn append<T: DeviceContainer>(&mut self, container: &mut T) -> (r: Result<(), Error>)
        ensures
            (final(self)@, final(container).spec_power_policy_device().linked, r) == spec_append(
                old(self)@,
                old(container).spec_power_policy_device().linked,
                old(container).spec_power_policy_device().id,
            ),
            final(container).spec_power_policy_device() == (DeviceView {
                linked: final(container).spec_power_policy_device().linked,
                ..old(container).spec_power_policy_device()
            }),
    {
        let device = container.get_power_policy_device_mut();
        if device.get_node().is_linked() {
            return Err(Error::AlreadyLinked);
        }
        self.order.push(device.id());
        device.set_node(Node { linked: true });
        Ok(())
    }

    /// Returns how many containers the list holds.
    pub fn len(&self) -> (n: usize)
        ensures
            n == self@.len(),
    {
        self.order.len()
    }

    /// Returns the identity recorded at `index`, counted from the head, or
    /// nothing past the tail.
    pub fn get(&self, index: usize) -> (id: Option<DeviceId>)
        ensures
            id == (if index < self@.len() {
                Some(self@[index as int])
            } else {
                None
            }),
    {
        if index < self.order.len() {
            Some(self.order[index])
        } else {
            None
        }
    }

    /// Returns the recorded identities from head to tail.
    pub fn iterate(&self) -> (ids: Vec<DeviceId>)
        ensures
            ids@ == self@,
    {
        let mut ids: Vec<DeviceId> = Vec::new();
        let n = self.order.len();
        let mut i: usize = 0;
        while i < n
            invariant
                n == self.order@.len(),
                i <= n,
                ids@ == self.order@.take(i as int),
            decreases n - i,
        {
            ids.push(self.order[i]);
            assert(self.order@.take(i as int + 1) == self.order@.take(i as int).push(
                self.order@[i as int],
            ));
            i += 1;
        }
        assert(self.order@.take(n as int) == self.order@);
        ids
    }
}

/// A container cannot be appended twice: whatever the first append did, an
/// append of the same container that follows it fails with `AlreadyLinked`
/// and leaves the list and the container as the first append left them. The
/// first append succeeds exactly for a container that is in no list, and then
/// puts it at the tail.
pub proof fn law_second_append_fails(list: Seq<DeviceId>, linked: bool, id: DeviceId)
    ensures
        ({
            let first = spec_append(list, linked, id);
            let again = spec_append(first.0, first.1, id);
            &&& first.2 is Ok <==> !linked
            &&& first.2 is Ok ==> first.0 == list.push(id)
            &&& again.2 == Err::<(), Error>(Error::AlreadyLinked)
            &&& again.0 == first.0
            &&& again.1 == first.1
        }),
{
}

/// A linked container is refused by every list, and the list that refuses it
/// keeps its contents and their order.
pub proof fn law_linked_container_is_refused(list: Seq<DeviceId>, id: DeviceId)
    ensures
        spec_append(list, true, id) == (list, true, Err::<(), Error>(Error::AlreadyLinked)),
{
}

} // verus!
