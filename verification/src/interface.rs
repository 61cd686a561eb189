use vstd::prelude::*;

use crate::address::{ipv4_text, ipv4_to_string, ipv6_text, ipv6_to_string};

verus! {

/// An interface address, by its octets (IPv4) or segments (IPv6).
pub enum IpAddress {
    V4([u8; 4]),
    V6([u16; 8]),
}

/// The text of an address as `IpAddr`'s `Display` writes it.
pub open spec fn ip_text(a: IpAddress) -> Seq<char> {
    match a {
        IpAddress::V4(octets) => ipv4_text(octets@),
        IpAddress::V6(segments) => ipv6_text(segments@),
    }
}

/// Renders an address as `IpAddr`'s `Display` does.
pub fn ip_to_string(a: &IpAddress) -> (r: String)
    ensures
        r@ == ip_text(*a),
{
    match a {
        IpAddress::V4(octets) => ipv4_to_string(octets),
        IpAddress::V6(segments) => ipv6_to_string(segments),
    }
}

/// A capture device as the system lists it.
pub struct DeviceInfo {
    pub name: String,
    pub desc: Option<String>,
    pub addresses: Vec<IpAddress>,
}

/// A network interface offered for capture.
#[derive(Clone, Debug)]
pub struct NetworkInterface {
    /// Position in the device list.
    pub index: usize,
    pub name: String,
    /// The device description, or its name where it has none.
    pub description: String,
    /// The device's addresses as text.
    pub addresses: Vec<String>,
}

/// The text views of a sequence of strings.
pub open spec fn texts(v: Seq<String>) -> Seq<Seq<char>> {
    v.map_values(|s: String| s@)
}

/// The interface describes the device found at position `index` of the list.
pub open spec fn describes_device(i: NetworkInterface, d: DeviceInfo, index: int) -> bool {
    &&& i.index == index
    &&& i.name@ == d.name@
    &&& i.description@ == match d.desc {
        Some(desc) => desc@,
        None => d.name@,
    }
    &&& texts(i.addresses@) == d.addresses@.map_values(|a: IpAddress| ip_text(a))
}

fn address_texts(addresses: &Vec<IpAddress>) -> (r: Vec<String>)
    ensures
        texts(r@) == addresses@.map_values(|a: IpAddress| ip_text(a)),
{
    let mut r: Vec<String> = Vec::new();
    let mut k: usize = 0;
    while k < addresses.len()
        invariant
            k <= addresses.len(),
            texts(r@) == addresses@.subrange(0, k as int).map_values(|a: IpAddress| ip_text(a)),
        decreases addresses.len() - k,
    {
        let t = ip_to_string(&addresses[k]);
        let ghost before = r@;
        r.push(t);
        proof {
            assert(texts(r@) =~= texts(before).push(ip_text(addresses@[k as int])));
            assert(addresses@.subrange(0, k + 1).map_values(|a: IpAddress| ip_text(a))
                =~= addresses@.subrange(0, k as int).map_values(|a: IpAddress| ip_text(a)).push(
                ip_text(addresses@[k as int]),
            ));
        }
        k = k + 1;
    }
    assert(addresses@.subrange(0, addresses@.len() as int) =~= addresses@);
    r
}

/// Describes the listed devices as interfaces, numbered by their position in the list.
pub fn interfaces_from_devices(devices: &Vec<DeviceInfo>) -> (r: Vec<NetworkInterface>)
    ensures
        r.len() == devices.len(),
        forall|i: int| 0 <= i < r.len() ==> describes_device(#[trigger] r@[i], devices@[i], i),
{
    let mut r: Vec<NetworkInterface> = Vec::new();
    let mut k: usize = 0;
    while k < devices.len()
        invariant
            k <= devices.len(),
            r.len() == k,
            forall|i: int| 0 <= i < k ==> describes_device(#[trigger] r@[i], devices@[i], i),
        decreases devices.len() - k,
    {
        let device = &devices[k];
        let description = match &device.desc {
            Some(desc) => desc.clone(),
            None => device.name.clone(),
        };
        r.push(
            NetworkInterface {
                index: k,
                name: device.name.clone(),
                description,
                addresses: address_texts(&device.addresses),
            },
        );
        k = k + 1;
    }
    r
}

/// The name of the interface chosen by position, if there is one at that position.
pub fn selected_interface_name(interfaces: &Vec<NetworkInterface>, selected: usize) -> (r: Option<String>)
    ensures
        r is Some <==> selected < interfaces.len(),
        r matches Some(name) ==> name@ == interfaces@[selected as int].name@,
{
    if selected >= interfaces.len() {
        None
    } else {
        Some(interfaces[selected].name.clone())
    }
}

/// An interface lists every address of its device, in order, each as its text.
pub proof fn lemma_all_addresses_listed(i: NetworkInterface, d: DeviceInfo, index: int)
    requires
        describes_device(i, d, index),
    ensures
        i.addresses@.len() == d.addresses@.len(),
        forall|k: int| 0 <= k < i.addresses@.len() ==> #[trigger] i.addresses@[k]@ == ip_text(d.addresses@[k]),
        i.index == index,
        i.name@ == d.name@,
        d.desc is None ==> i.description@ == d.name@,
{
    let mapped = d.addresses@.map_values(|a: IpAddress| ip_text(a));
    assert(texts(i.addresses@).len() == i.addresses@.len());
    assert(mapped.len() == d.addresses@.len());
    assert forall|k: int| 0 <= k < i.addresses@.len() implies #[trigger] i.addresses@[k]@ == ip_text(
        d.addresses@[k],
    ) by {
        assert(texts(i.addresses@)[k] == i.addresses@[k]@);
        assert(mapped[k] == ip_text(d.addresses@[k]));
    }
}

} // verus!
