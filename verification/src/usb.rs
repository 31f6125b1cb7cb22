//! Finding the device and the interface that drives its LEDs.

use crate::bytes::has_byte;
use vstd::prelude::*;

verus! {

/// What identifies the maker and the model of a device.
#[derive(Clone, Copy, Debug, PartialEq, Eq, Structural)]
pub struct DeviceId {
    pub vendor: u16,
    pub product: u16,
}

/// Why no device was chosen.
#[derive(Clone, Copy, Debug, PartialEq, Eq, Structural)]
pub enum UsbError {
    NoDevice,
}

/// One setting of an interface, with the addresses of its endpoints.
#[derive(Debug, PartialEq, Eq)]
pub struct InterfaceDescriptor {
    pub interface_number: u8,
    pub endpoints: Vec<u8>,
}

/// An interface of a device.
#[derive(Debug, PartialEq, Eq)]
pub struct Interface {
    pub descriptors: Vec<InterfaceDescriptor>,
}

/// The descriptors of all interfaces, in order.
pub open spec fn all_descriptors(interfaces: Seq<Interface>) -> Seq<InterfaceDescriptor>
    decreases interfaces.len(),
{
    if interfaces.len() == 0 {
        seq![]
    } else {
        all_descriptors(interfaces.drop_last()) + interfaces.last().descriptors@
    }
}

/// The interface number of the last descriptor that has the endpoint, or 0
/// where none has it.
pub open spec fn interface_with(descriptors: Seq<InterfaceDescriptor>, endpoint: u8) -> u8
    decreases descriptors.len(),
{
    if descriptors.len() == 0 {
        0
    } else if descriptors.last().endpoints@.contains(endpoint) {
        descriptors.last().interface_number
    } else {
        interface_with(descriptors.drop_last(), endpoint)
    }
}

/// The device matches the maker and the model that are looked for.
pub open spec fn is_device(device: DeviceId, vendor: u16, product: u16) -> bool {
    device.vendor == vendor && device.product == product
}

/// ROG device controller
pub struct RogCore {
    interface: u8,
}

impl RogCore {
    /// The interface that the controller claims.
    pub closed spec fn claimed(&self) -> u8 {
        self.interface
    }

    /// The controller of a device with the given interfaces: it claims the
    /// one with the LED endpoint.
    pub fn new(interfaces: &Vec<Interface>, led_endpoint: u8) -> (core: RogCore)
        ensures
            core.claimed() == interface_with(all_descriptors(interfaces@), led_endpoint),
    {
        let mut interface: u8 = 0;
        let ghost mut seen: Seq<InterfaceDescriptor> = seq![];
        let mut i: usize = 0;
        while i < interfaces.len()
            invariant
                i <= interfaces@.len(),
                seen == all_descriptors(interfaces@.take(i as int)),
                interface == interface_with(seen, led_endpoint),
            decreases interfaces@.len() - i,
        {
            let descriptors = &interfaces[i].descriptors;
            let ghost before = seen;
            let mut j: usize = 0;
            assert(seen =~= before + descriptors@.take(0));
            while j < descriptors.len()
                invariant
                    j <= descriptors@.len(),
                    seen == before + descriptors@.take(j as int),
                    interface == interface_with(seen, led_endpoint),
                decreases descriptors@.len() - j,
            {
                if has_byte(&descriptors[j].endpoints, led_endpoint) {
                    interface = descriptors[j].interface_number;
                }
                proof {
                    let next = before + descriptors@.take(j + 1);
                    assert(next.drop_last() =~= seen);
                    assert(next.last() == descriptors@[j as int]);
                    seen = next;
                }
                j += 1;
            }
            proof {
                assert(descriptors@.take(j as int) =~= descriptors@);
                assert(interfaces@.take(i + 1).drop_last() =~= interfaces@.take(i as int));
            }
            i += 1;
        }
        assert(interfaces@.take(i as int) =~= interfaces@);
        RogCore { interface }
    }

    /// The interface that the controller claims.
    pub fn interface(&self) -> (interface: u8)
        ensures
            interface == self.claimed(),
    {
        self.interface
    }

    /// The first of the devices that is of the given maker and model.
    pub fn get_device(devices: &Vec<DeviceId>, vendor: u16, product: u16) -> (index: Result<
        usize,
        UsbError,
    >)
        ensures
            match index {
                Ok(i) => {
                    &&& i < devices@.len()
                    &&& is_device(devices@[i as int], vendor, product)
                    &&& forall|j: int| 0 <= j < i ==> !is_device(#[trigger] devices@[j], vendor, product)
                },
                Err(e) => {
                    &&& e == UsbError::NoDevice
                    &&& forall|j: int|
                        0 <= j < devices@.len() ==> !is_device(
                            #[trigger] devices@[j],
                            vendor,
                            product,
                        )
                },
            },
            index matches Ok(i) ==> devices@[i as int].vendor == vendor && devices@[i as int].product
                == product,
            forall|j: int|
                #![trigger devices@[j]]
                0 <= j < devices@.len() && devices@[j].vendor == vendor && devices@[j].product
                    == product ==> (index matches Ok(i) && i <= j),
    {
        let mut i: usize = 0;
        while i < devices.len()
            invariant
                i <= devices@.len(),
                forall|j: int| 0 <= j < i ==> !is_device(#[trigger] devices@[j], vendor, product),
            decreases devices@.len() - i,
        {
            if devices[i].vendor == vendor && devices[i].product == product {
                return Ok(i);
            }
            i += 1;
        }
        Err(UsbError::NoDevice)
    }
}

/// The interface with the endpoint is that of the last descriptor that has
/// it: one with the endpoint counts unless a later one has it too.
pub proof fn law_last_interface_wins(
    descriptors: Seq<InterfaceDescriptor>,
    endpoint: u8,
    k: int,
)
    requires
        0 <= k < descriptors.len(),
        descriptors[k].endpoints@.contains(endpoint),
        forall|j: int|
            k < j < descriptors.len() ==> !(#[trigger] descriptors[j]).endpoints@.contains(
                endpoint,
            ),
    ensures
        interface_with(descriptors, endpoint) == descriptors[k].interface_number,
    decreases descriptors.len(),
{
    if k < descriptors.len() - 1 {
        law_last_interface_wins(descriptors.drop_last(), endpoint, k);
    }
}

/// Where no descriptor has the endpoint, the interface is the first one.
pub proof fn law_default_interface(descriptors: Seq<InterfaceDescriptor>, endpoint: u8)
    requires
        forall|j: int|
            0 <= j < descriptors.len() ==> !(#[trigger] descriptors[j]).endpoints@.contains(
                endpoint,
            ),
    ensures
        interface_with(descriptors, endpoint) == 0,
    decreases descriptors.len(),
{
    if descriptors.len() > 0 {
        law_default_interface(descriptors.drop_last(), endpoint);
    }
}

/// A device is the wanted one exactly if its maker and its model are.
pub proof fn law_which_device_is_wanted(device: DeviceId, vendor: u16, product: u16)
    ensures
        is_device(device, vendor, product) <==> device.vendor == vendor && device.product
            == product,
{
}

/// The number of descriptors of the interfaces before the one at an index.
spec fn descriptors_before(interfaces: Seq<Interface>, i: int) -> nat {
    all_descriptors(interfaces.take(i)).len()
}

proof fn lemma_descriptor_at(interfaces: Seq<Interface>, i: int, d: int)
    requires
        0 <= i < interfaces.len(),
        0 <= d < interfaces[i].descriptors@.len(),
    ensures
        descriptors_before(interfaces, i) + d < all_descriptors(interfaces).len(),
        all_descriptors(interfaces)[descriptors_before(interfaces, i) + d]
            == interfaces[i].descriptors@[d],
    decreases interfaces.len(),
{
    let rest = interfaces.drop_last();
    if i == interfaces.len() - 1 {
        assert(interfaces.take(i) =~= rest);
    } else {
        lemma_descriptor_at(rest, i, d);
        assert(rest.take(i) =~= interfaces.take(i));
        assert(rest[i] == interfaces[i]);
    }
}

/// Every descriptor stands in one of the interfaces, at the place that counting
/// gives.
proof fn lemma_where_descriptor_is(interfaces: Seq<Interface>, k: int) -> (at: (int, int))
    requires
        0 <= k < all_descriptors(interfaces).len(),
    ensures
        0 <= at.0 < interfaces.len(),
        0 <= at.1 < interfaces[at.0].descriptors@.len(),
        k == descriptors_before(interfaces, at.0) + at.1,
        all_descriptors(interfaces)[k] == interfaces[at.0].descriptors@[at.1],
    decreases interfaces.len(),
{
    let rest = interfaces.drop_last();
    let last = interfaces.len() - 1;
    assert(interfaces.take(last) =~= rest);
    if k < all_descriptors(rest).len() {
        let at = lemma_where_descriptor_is(rest, k);
        assert(rest.take(at.0) =~= interfaces.take(at.0));
        at
    } else {
        (last, k - all_descriptors(rest).len())
    }
}

proof fn lemma_descriptors_before(interfaces: Seq<Interface>, i: int, j: int)
    requires
        0 <= i < j < interfaces.len(),
    ensures
        descriptors_before(interfaces, i) + interfaces[i].descriptors@.len() <= descriptors_before(
            interfaces,
            j,
        ),
    decreases j - i,
{
    assert(interfaces.take(j).drop_last() =~= interfaces.take(j - 1));
    if i < j - 1 {
        lemma_descriptors_before(interfaces, i, j - 1);
    }
}

/// Every descriptor of every interface counts: the claimed interface is that of the
/// last descriptor with the endpoint, which neither a later descriptor of the same
/// interface nor any descriptor of a later interface has.
pub proof fn law_every_interface_is_looked_at(
    interfaces: Seq<Interface>,
    endpoint: u8,
    i: int,
    d: int,
)
    requires
        0 <= i < interfaces.len(),
        0 <= d < interfaces[i].descriptors@.len(),
        interfaces[i].descriptors@[d].endpoints@.contains(endpoint),
        forall|e: int|
            d < e < interfaces[i].descriptors@.len() ==> !(
            #[trigger] interfaces[i].descriptors@[e]).endpoints@.contains(endpoint),
        forall|j: int, e: int|
            i < j < interfaces.len() && 0 <= e < interfaces[j].descriptors@.len() ==> !(
            #[trigger] interfaces[j].descriptors@[e]).endpoints@.contains(endpoint),
    ensures
        interface_with(all_descriptors(interfaces), endpoint)
            == interfaces[i].descriptors@[d].interface_number,
{
    let all = all_descriptors(interfaces);
    let k = descriptors_before(interfaces, i) + d;
    lemma_descriptor_at(interfaces, i, d);
    assert forall|l: int| k < l < all.len() implies !(#[trigger] all[l]).endpoints@.contains(
        endpoint,
    ) by {
        let (j, e) = lemma_where_descriptor_is(interfaces, l);
        if j < i {
            lemma_descriptors_before(interfaces, j, i);
        } else if j > i {
            assert(!interfaces[j].descriptors@[e].endpoints@.contains(endpoint));
        } else {
            assert(!interfaces[i].descriptors@[e].endpoints@.contains(endpoint));
        }
    }
    law_last_interface_wins(all, endpoint, k);
}

/// Where no descriptor of any interface has the endpoint, interface 0 is claimed.
pub proof fn law_no_interface_has_the_endpoint(interfaces: Seq<Interface>, endpoint: u8)
    requires
        forall|j: int, e: int|
            0 <= j < interfaces.len() && 0 <= e < interfaces[j].descriptors@.len() ==> !(
            #[trigger] interfaces[j].descriptors@[e]).endpoints@.contains(endpoint),
    ensures
        interface_with(all_descriptors(interfaces), endpoint) == 0,
{
    let all = all_descriptors(interfaces);
    assert forall|l: int| 0 <= l < all.len() implies !(#[trigger] all[l]).endpoints@.contains(
        endpoint,
    ) by {
        let (j, e) = lemma_where_descriptor_is(interfaces, l);
        assert(!interfaces[j].descriptors@[e].endpoints@.contains(endpoint));
    }
    law_default_interface(all, endpoint);
}

} // verus!
