//! Derivation of unique-local IPv6 subnets and interface addresses.

use vstd::prelude::*;

use super::PlanError;
use crate::model::{ConfigBundle, Service};
use crate::net::{ipv6_network, v6_mask, v6_network, Ipv6Cidr};
use crate::table::{find, lookup};
use crate::text::{owned, parse_hex_u64, parse_hex_u64_chars, remove_colons, without_colons};

verus! {

/// The `/64` with ID `subnet_id` inside a `/48` root: the root network with
/// the ID in bits 64..80.
pub open spec fn ula_subnet_of(root: Ipv6Cidr, subnet_id: u16) -> Option<Ipv6Cidr> {
    if root.prefix_len == 48 {
        Some(Ipv6Cidr { addr: v6_network(root) | ((subnet_id as u128) << 64u128), prefix_len: 64 })
    } else {
        None
    }
}

/// The address with interface ID `id` (hexadecimal, colons ignored) in a `/64`.
pub open spec fn interface_address_of(subnet: Ipv6Cidr, id: Seq<char>) -> Option<u128> {
    if subnet.prefix_len == 64 {
        match parse_hex_u64(without_colons(id)) {
            Some(iid) => Some(v6_network(subnet) | (iid as u128)),
            None => None,
        }
    } else {
        None
    }
}

/// The ULA `/64` allocated to a logical network.
pub open spec fn network_ula_of(b: &ConfigBundle, network: Seq<char>) -> Option<Ipv6Cidr> {
    match b.allocations.ula {
        None => None,
        Some(u) => match lookup(u.networks@, network) {
            None => None,
            Some(id) => ula_subnet_of(u.prefix, id),
        },
    }
}

/// The ULA `/64` allocated to a location segment.
pub open spec fn segment_ula_of(b: &ConfigBundle, segment: Seq<char>) -> Option<Ipv6Cidr> {
    match b.allocations.ula {
        None => None,
        Some(u) => match lookup(u.segments@, segment) {
            None => None,
            Some(id) => ula_subnet_of(u.prefix, id),
        },
    }
}

/// A service's ULA address: its interface ID inside its network's ULA `/64`.
pub open spec fn service_ula_of(b: &ConfigBundle, s: Service) -> Option<u128> {
    match s.address {
        None => None,
        Some(a) => match a.ipv6_interface_id {
            None => None,
            Some(id) => match network_ula_of(b, s.network@) {
                None => None,
                Some(subnet) => interface_address_of(subnet, id@),
            },
        },
    }
}

/// A host interface's ULA address: its ULA interface ID inside its segment's
/// ULA `/64`.
pub open spec fn host_ula_of(b: &ConfigBundle, host: Seq<char>, interface: Seq<char>) -> Option<u128> {
    match lookup(b.location.hosts@, host) {
        None => None,
        Some(lh) => match lookup(lh.interfaces@, interface) {
            None => None,
            Some(iface) => match iface.ula_interface_id {
                None => None,
                Some(id) => match segment_ula_of(b, iface.segment@) {
                    None => None,
                    Some(subnet) => interface_address_of(subnet, id@),
                },
            },
        },
    }
}

/// Why an interface address in `subnet` is refused: the subnet is not a
/// `/64`, or the ID is not hexadecimal that fits in 64 bits.
pub open spec fn interface_refusal(subnet: Ipv6Cidr, id: Seq<char>, err: PlanError) -> bool {
    if subnet.prefix_len != 64 {
        err matches PlanError::SubnetNot64 { subnet: x } && x == subnet
    } else {
        err matches PlanError::InvalidInterfaceId { id: x } && x@ == id
    }
}

/// Why the ULA `/64` of a network is refused: no ULA allocation, no subnet
/// ID for the network, or a root that is not a `/48`.
pub open spec fn network_ula_refusal(b: &ConfigBundle, network: Seq<char>, err: PlanError) -> bool {
    match b.allocations.ula {
        None => err is UlaNotAllocated,
        Some(u) => if lookup(u.networks@, network) is None {
            err matches PlanError::NoUlaForNetwork { network: x } && x@ == network
        } else {
            err matches PlanError::UlaRootNot48 { root } && root == u.prefix
        },
    }
}

/// Why the ULA `/64` of a segment is refused, as for a network.
pub open spec fn segment_ula_refusal(b: &ConfigBundle, segment: Seq<char>, err: PlanError) -> bool {
    match b.allocations.ula {
        None => err is UlaNotAllocated,
        Some(u) => if lookup(u.segments@, segment) is None {
            err matches PlanError::NoUlaForSegment { segment: x } && x@ == segment
        } else {
            err matches PlanError::UlaRootNot48 { root } && root == u.prefix
        },
    }
}

/// Why the ULA address of service `s` is refused, checked in order: no
/// address, no interface ID, its network's subnet, the interface ID.
pub open spec fn service_ula_refusal(b: &ConfigBundle, s: Service, err: PlanError) -> bool {
    match s.address {
        None => err is ServiceNoAddress,
        Some(a) => match a.ipv6_interface_id {
            None => err is ServiceNoInterfaceId,
            Some(id) => match network_ula_of(b, s.network@) {
                None => network_ula_refusal(b, s.network@, err),
                Some(subnet) => interface_refusal(subnet, id@, err),
            },
        },
    }
}

/// Why the ULA address of `interface` of `host` is refused, checked in
/// order: the host is not attached, lacks the interface or its ULA ID, the
/// segment's subnet, the interface ID.
pub open spec fn host_ula_refusal(b: &ConfigBundle, host: Seq<char>, interface: Seq<char>, err: PlanError) -> bool {
    match lookup(b.location.hosts@, host) {
        None => err matches PlanError::HostNotAttached { host: h, location } && h@ == host && location@ == b.location.name@,
        Some(lh) => match lookup(lh.interfaces@, interface) {
            None => err matches PlanError::NoInterface { host: h, interface: i } && h@ == host && i@ == interface,
            Some(iface) => match iface.ula_interface_id {
                None => err matches PlanError::NoUlaInterfaceId { host: h, interface: i } && h@ == host && i@ == interface,
                Some(id) => match segment_ula_of(b, iface.segment@) {
                    None => segment_ula_refusal(b, iface.segment@, err),
                    Some(subnet) => interface_refusal(subnet, id@, err),
                },
            },
        },
    }
}

/// Derives the `/64` with a given ID from a `/48` ULA root.
pub fn ula_subnet(root: Ipv6Cidr, subnet_id: u16) -> (r: Result<Ipv6Cidr, PlanError>)
    requires
        root.wf(),
    ensures
        r is Ok <==> ula_subnet_of(root, subnet_id) is Some,
        r matches Ok(c) ==> Some(c) == ula_subnet_of(root, subnet_id),
        r matches Err(err) ==> (err matches PlanError::UlaRootNot48 { root: x } && x == root),
{
    if root.prefix_len != 48 {
        return Err(PlanError::UlaRootNot48 { root });
    }
    let network = ipv6_network(root);
    let id: u128 = subnet_id as u128;
    Ok(Ipv6Cidr { addr: network | (id << 64u128), prefix_len: 64 })
}

/// Places a hexadecimal interface ID inside a `/64`.
pub fn interface_address(subnet: Ipv6Cidr, interface_id: &str) -> (r: Result<u128, PlanError>)
    requires
        subnet.wf(),
    ensures
        r is Ok <==> interface_address_of(subnet, interface_id@) is Some,
        r matches Ok(a) ==> Some(a) == interface_address_of(subnet, interface_id@),
        r matches Err(err) ==> interface_refusal(subnet, interface_id@, err),
{
    if subnet.prefix_len != 64 {
        return Err(PlanError::SubnetNot64 { subnet });
    }
    let clean = remove_colons(interface_id);
    let iid = match parse_hex_u64_chars(&clean) {
        None => {
            return Err(PlanError::InvalidInterfaceId { id: owned(interface_id) });
        },
        Some(v) => v,
    };
    let network = ipv6_network(subnet);
    Ok(network | (iid as u128))
}

/// The ULA `/64` of a logical network.
pub fn network_ula(b: &ConfigBundle, network: &str) -> (r: Result<Ipv6Cidr, PlanError>)
    requires
        b.wf(),
    ensures
        r is Ok <==> network_ula_of(b, network@) is Some,
        r matches Ok(c) ==> Some(c) == network_ula_of(b, network@) && c.wf(),
        r matches Err(err) ==> network_ula_refusal(b, network@, err),
{
    let ula = match &b.allocations.ula {
        None => {
            return Err(PlanError::UlaNotAllocated);
        },
        Some(u) => u,
    };
    let i = match find(&ula.networks, network) {
        None => {
            return Err(PlanError::NoUlaForNetwork { network: owned(network) });
        },
        Some(i) => i,
    };
    ula_subnet(ula.prefix, ula.networks[i].1)
}

/// The ULA `/64` of a location segment.
pub fn segment_ula(b: &ConfigBundle, segment: &str) -> (r: Result<Ipv6Cidr, PlanError>)
    requires
        b.wf(),
    ensures
        r is Ok <==> segment_ula_of(b, segment@) is Some,
        r matches Ok(c) ==> Some(c) == segment_ula_of(b, segment@) && c.wf(),
        r matches Err(err) ==> segment_ula_refusal(b, segment@, err),
{
    let ula = match &b.allocations.ula {
        None => {
            return Err(PlanError::UlaNotAllocated);
        },
        Some(u) => u,
    };
    let i = match find(&ula.segments, segment) {
        None => {
            return Err(PlanError::NoUlaForSegment { segment: owned(segment) });
        },
        Some(i) => i,
    };
    ula_subnet(ula.prefix, ula.segments[i].1)
}

/// The ULA address of a service.
pub fn service_ula(b: &ConfigBundle, service: &Service) -> (r: Result<u128, PlanError>)
    requires
        b.wf(),
    ensures
        r is Ok <==> service_ula_of(b, *service) is Some,
        r matches Ok(a) ==> Some(a) == service_ula_of(b, *service),
        r matches Err(err) ==> service_ula_refusal(b, *service, err),
{
    let address = match &service.address {
        None => {
            return Err(PlanError::ServiceNoAddress);
        },
        Some(a) => a,
    };
    let id = match &address.ipv6_interface_id {
        None => {
            return Err(PlanError::ServiceNoInterfaceId);
        },
        Some(id) => id,
    };
    let subnet = network_ula(b, service.network.as_str())?;
    interface_address(subnet, id.as_str())
}

/// The ULA address of a host interface at the location.
pub fn host_ula(b: &ConfigBundle, host: &str, interface: &str) -> (r: Result<u128, PlanError>)
    requires
        b.wf(),
    ensures
        r is Ok <==> host_ula_of(b, host@, interface@) is Some,
        r matches Ok(a) ==> Some(a) == host_ula_of(b, host@, interface@),
        r matches Err(err) ==> host_ula_refusal(b, host@, interface@, err),
{
    let hi = match find(&b.location.hosts, host) {
        None => {
            return Err(PlanError::HostNotAttached { host: owned(host), location: b.location.name.clone() });
        },
        Some(i) => i,
    };
    let lh = &b.location.hosts[hi].1;
    assert(crate::table::unique_keys(b.location.hosts@[hi as int].1.interfaces@));
    let ii = match find(&lh.interfaces, interface) {
        None => {
            return Err(PlanError::NoInterface { host: owned(host), interface: owned(interface) });
        },
        Some(i) => i,
    };
    let iface = &lh.interfaces[ii].1;
    let id = match &iface.ula_interface_id {
        None => {
            return Err(PlanError::NoUlaInterfaceId { host: owned(host), interface: owned(interface) });
        },
        Some(id) => id,
    };
    let subnet = segment_ula(b, iface.segment.as_str())?;
    interface_address(subnet, id.as_str())
}

/// The `/64` derived from a `/48` root lies inside the root and is written
/// with its network address: masking it to 48 bits gives back the root's
/// network, and it has no host bits.
pub proof fn law_ula_subnet_inside_root(root: Ipv6Cidr, subnet_id: u16)
    requires
        root.wf(),
        ula_subnet_of(root, subnet_id) is Some,
    ensures
        ula_subnet_of(root, subnet_id)->0.addr == v6_network(ula_subnet_of(root, subnet_id)->0),
        v6_network(ula_subnet_of(root, subnet_id)->0) & v6_mask(48) == v6_network(root),
{
    let x = root.addr;
    let id = subnet_id;
    assert(v6_mask(48) == 0xffff_ffff_ffff_ffff_ffff_ffff_ffff_ffffu128 << 80u128);
    assert(v6_mask(64) == 0xffff_ffff_ffff_ffff_ffff_ffff_ffff_ffffu128 << 64u128);
    assert({
        let n = x & (0xffff_ffff_ffff_ffff_ffff_ffff_ffff_ffffu128 << 80u128);
        let a = n | ((id as u128) << 64u128);
        &&& a & (0xffff_ffff_ffff_ffff_ffff_ffff_ffff_ffffu128 << 64u128) == a
        &&& a & (0xffff_ffff_ffff_ffff_ffff_ffff_ffff_ffffu128 << 80u128) == n
    }) by (bit_vector);
}

/// An interface address lies inside the `/64` it was placed in: masking it to
/// 64 bits gives back the subnet's network address.
pub proof fn law_interface_address_inside_subnet(subnet: Ipv6Cidr, id: Seq<char>)
    requires
        subnet.wf(),
        interface_address_of(subnet, id) is Some,
    ensures
        interface_address_of(subnet, id)->0 & v6_mask(64) == v6_network(subnet),
{
    let x = subnet.addr;
    let iid = parse_hex_u64(without_colons(id))->0;
    assert(v6_mask(64) == 0xffff_ffff_ffff_ffff_ffff_ffff_ffff_ffffu128 << 64u128);
    assert({
        let n = x & (0xffff_ffff_ffff_ffff_ffff_ffff_ffff_ffffu128 << 64u128);
        (n | (iid as u128)) & (0xffff_ffff_ffff_ffff_ffff_ffff_ffff_ffffu128 << 64u128) == n
    }) by (bit_vector);
}

} // verus!
