//! Address plans: gateways, host and service addresses, and host ports.

use vstd::prelude::*;

use super::references::{location_hosts_ok, service_refs_ok};
use super::{address_error, ValidationError};
use crate::model::{ConfigBundle, Service, TransportProtocol};
use crate::net::{ipv4_contains, v4_contains};
use crate::table::{find, lemma_dup_in_prefix, lookup, u32_in, unique_keys};

verus! {

/// Every segment's gateway lies inside the segment.
pub open spec fn segment_gateways_ok(b: &ConfigBundle) -> bool {
    forall|i: int|
        0 <= i < b.location.segments@.len() ==> {
            let s = (#[trigger] b.location.segments@[i]).1;
            v4_contains(s.ipv4_cidr, s.ipv4_gateway)
        }
}

/// Every static interface address lies inside the interface's segment.
pub open spec fn interface_addresses_ok(b: &ConfigBundle) -> bool {
    forall|i: int, j: int|
        0 <= i < b.location.hosts@.len() && 0 <= j < b.location.hosts@[i].1.interfaces@.len() ==> {
            let iface = (#[trigger] b.location.hosts@[i].1.interfaces@[j]).1;
            match (iface.ipv4, lookup(b.location.segments@, iface.segment@)) {
                (Some(a), Some(seg)) => v4_contains(seg.ipv4_cidr, a),
                _ => true,
            }
        }
}

/// A network with both a CIDR and a gateway has its gateway inside the CIDR.
pub open spec fn network_gateways_ok(b: &ConfigBundle) -> bool {
    forall|i: int|
        0 <= i < b.networks.networks@.len() ==> {
            let n = (#[trigger] b.networks.networks@[i]).1;
            match (n.ipv4_cidr, n.ipv4_gateway) {
                (Some(c), Some(g)) => v4_contains(c, g),
                _ => true,
            }
        }
}

/// The static IPv4 address of a service, if it has one.
pub open spec fn service_ipv4(s: Service) -> Option<u32> {
    match s.address {
        Some(a) => a.ipv4,
        None => None,
    }
}

/// A service address lies inside the IPv4 CIDR of the service's network.
pub open spec fn service_address_ok(b: &ConfigBundle, s: Service) -> bool {
    match (service_ipv4(s), lookup(b.networks.networks@, s.network@)) {
        (Some(a), Some(n)) => match n.ipv4_cidr {
            Some(c) => v4_contains(c, a),
            None => false,
        },
        _ => true,
    }
}

/// No two services share a static IPv4 address.
pub open spec fn service_ipv4_unique(s: Seq<(String, Service)>) -> bool {
    forall|i: int, j: int|
        0 <= i < j < s.len() ==> match (service_ipv4(#[trigger] s[i].1), service_ipv4(#[trigger] s[j].1)) {
            (Some(a), Some(c)) => a != c,
            _ => true,
        }
}

/// A host port as claimed by a service: host, port, protocol.
pub type PortKey = (Seq<char>, u16, TransportProtocol);

/// The host ports a service claims: its port mappings, then its SSH port (TCP).
pub open spec fn service_port_keys(s: Service) -> Seq<PortKey> {
    s.ports@.map_values(|p: crate::model::PortMapping| (s.host@, p.host, p.protocol)) + match s.ssh {
        Some(x) => seq![(s.host@, x.host_port, TransportProtocol::Tcp)],
        None => Seq::<PortKey>::empty(),
    }
}

/// All claimed host ports, service by service.
pub open spec fn all_port_keys(s: Seq<(String, Service)>) -> Seq<PortKey>
    decreases s.len(),
{
    if s.len() == 0 {
        Seq::<PortKey>::empty()
    } else {
        all_port_keys(s.drop_last()) + service_port_keys(s.last().1)
    }
}

/// All address rules.
pub open spec fn addresses_ok(b: &ConfigBundle) -> bool {
    &&& segment_gateways_ok(b)
    &&& interface_addresses_ok(b)
    &&& network_gateways_ok(b)
    &&& forall|i: int|
        0 <= i < b.services.services@.len() ==> service_address_ok(b, (#[trigger] b.services.services@[i]).1)
    &&& service_ipv4_unique(b.services.services@)
    &&& all_port_keys(b.services.services@).no_duplicates()
}

/// The first segment whose gateway lies outside it.
pub open spec fn segment_gateways_refusal(b: &ConfigBundle, e: ValidationError) -> bool {
    let ss = b.location.segments@;
    exists|i: int| #![trigger ss[i]] 0 <= i < ss.len() && !v4_contains(ss[i].1.ipv4_cidr, ss[i].1.ipv4_gateway)
        && (forall|j: int| 0 <= j < i ==> v4_contains((#[trigger] ss[j]).1.ipv4_cidr, ss[j].1.ipv4_gateway))
        && (e matches ValidationError::SegmentGatewayOutside { segment, gateway, cidr }
            && segment@ == ss[i].0@ && gateway == ss[i].1.ipv4_gateway && cidr == ss[i].1.ipv4_cidr)
}

/// Interface `k` of attached host `i` has no static address, or one inside
/// its segment.
pub open spec fn interface_address_ok_at(b: &ConfigBundle, i: int, k: int) -> bool {
    let iface = b.location.hosts@[i].1.interfaces@[k].1;
    match (iface.ipv4, lookup(b.location.segments@, iface.segment@)) {
        (Some(a), Some(seg)) => v4_contains(seg.ipv4_cidr, a),
        _ => true,
    }
}

/// Every interface of attached host `i` passes `interface_address_ok_at`.
pub open spec fn host_addresses_ok_at(b: &ConfigBundle, i: int) -> bool {
    forall|k: int| 0 <= k < b.location.hosts@[i].1.interfaces@.len() ==> #[trigger] interface_address_ok_at(b, i, k)
}

/// The first interface, host by host, whose static address lies outside its
/// segment.
pub open spec fn interface_addresses_refusal(b: &ConfigBundle, e: ValidationError) -> bool {
    let hs = b.location.hosts@;
    exists|i: int| #![trigger hs[i]] 0 <= i < hs.len() && !host_addresses_ok_at(b, i)
        && (forall|j: int| 0 <= j < i ==> #[trigger] host_addresses_ok_at(b, j))
        && {
            let ifs = hs[i].1.interfaces@;
            exists|k: int| #![trigger ifs[k]] 0 <= k < ifs.len() && !interface_address_ok_at(b, i, k)
                && (forall|m: int| 0 <= m < k ==> #[trigger] interface_address_ok_at(b, i, m))
                && (e matches ValidationError::InterfaceAddressOutside { host, interface, address, cidr }
                    && host@ == hs[i].0@ && interface@ == ifs[k].0@ && Some(address) == ifs[k].1.ipv4
                    && cidr == lookup(b.location.segments@, ifs[k].1.segment@)->0.ipv4_cidr)
        }
}

/// Network `i` has no CIDR or gateway, or its gateway inside its CIDR.
pub open spec fn network_gateway_ok_at(b: &ConfigBundle, i: int) -> bool {
    let n = b.networks.networks@[i].1;
    match (n.ipv4_cidr, n.ipv4_gateway) {
        (Some(c), Some(g)) => v4_contains(c, g),
        _ => true,
    }
}

/// The first network whose gateway lies outside its CIDR.
pub open spec fn network_gateways_refusal(b: &ConfigBundle, e: ValidationError) -> bool {
    let ns = b.networks.networks@;
    exists|i: int| #![trigger ns[i]] 0 <= i < ns.len() && !network_gateway_ok_at(b, i)
        && (forall|j: int| 0 <= j < i ==> #[trigger] network_gateway_ok_at(b, j))
        && (e matches ValidationError::NetworkGatewayOutside { network, gateway, cidr }
            && network@ == ns[i].0@ && Some(gateway) == ns[i].1.ipv4_gateway && Some(cidr) == ns[i].1.ipv4_cidr)
}

/// The first `n` services meet the service rules among themselves.
pub open spec fn services_prefix_ok(b: &ConfigBundle, n: int) -> bool {
    let all = b.services.services@;
    &&& forall|j: int| 0 <= j < n ==> service_address_ok(b, (#[trigger] all[j]).1)
    &&& service_ipv4_unique(all.take(n))
    &&& all_port_keys(all.take(n)).no_duplicates()
}

/// Why service `i` is refused after the services before it were accepted,
/// checked in this order: its address against its network, its address
/// against earlier services, then its first host port claimed before.
pub open spec fn service_refusal(b: &ConfigBundle, i: int, e: ValidationError) -> bool {
    let all = b.services.services@;
    let name = all[i].0@;
    let s = all[i].1;
    let a = service_ipv4(s)->0;
    let net = lookup(b.networks.networks@, s.network@)->0;
    if !service_address_ok(b, s) {
        match net.ipv4_cidr {
            None => e matches ValidationError::ServiceNetworkNoCidr { service, address, network }
                && service@ == name && address == a && network@ == s.network@,
            Some(c) => e matches ValidationError::ServiceAddressOutside { service, address, network, cidr }
                && service@ == name && address == a && network@ == s.network@ && cidr == c,
        }
    } else if service_ipv4(s) is Some && exists|j: int| 0 <= j < i && service_ipv4(#[trigger] all[j].1) == Some(a) {
        e matches ValidationError::DuplicateServiceIpv4 { address } && address == a
    } else {
        let base = all_port_keys(all.take(i));
        let keys = service_port_keys(s);
        exists|m: int| #![trigger keys[m]] 0 <= m < keys.len() && (base + keys.take(m)).no_duplicates()
            && (base + keys.take(m)).contains(keys[m])
            && (e matches ValidationError::DuplicateHostPort { host, port, protocol } && (host@, port, protocol) == keys[m])
    }
}

/// The first service refused, with its refusal.
pub open spec fn services_refusal(b: &ConfigBundle, e: ValidationError) -> bool {
    exists|i: int| 0 <= i < b.services.services@.len() && #[trigger] services_prefix_ok(b, i) && service_refusal(b, i, e)
}

/// Why the address rules are refused: the first rule, in the order they are
/// checked, that fails, at its first offending entry.
pub open spec fn addresses_refusal(b: &ConfigBundle, e: ValidationError) -> bool {
    if !segment_gateways_ok(b) {
        segment_gateways_refusal(b, e)
    } else if !interface_addresses_ok(b) {
        interface_addresses_refusal(b, e)
    } else if !network_gateways_ok(b) {
        network_gateways_refusal(b, e)
    } else {
        services_refusal(b, e)
    }
}

proof fn lemma_all_port_keys_prefix(s: Seq<(String, Service)>, i: int)
    requires
        0 <= i <= s.len(),
    ensures
        all_port_keys(s).len() >= all_port_keys(s.take(i)).len(),
        all_port_keys(s).take(all_port_keys(s.take(i)).len() as int) == all_port_keys(s.take(i)),
    decreases s.len() - i,
{
    if i < s.len() {
        lemma_all_port_keys_prefix(s, i + 1);
        assert(s.take(i + 1).drop_last() =~= s.take(i));
        let a = all_port_keys(s.take(i));
        let c = all_port_keys(s.take(i + 1));
        assert(c == a + service_port_keys(s[i].1));
        assert(all_port_keys(s).take(a.len() as int) =~= c.take(a.len() as int));
        assert(c.take(a.len() as int) =~= a);
    } else {
        assert(s.take(i) =~= s);
        assert(all_port_keys(s).take(all_port_keys(s).len() as int) =~= all_port_keys(s));
    }
}

fn check_segment_gateways(b: &ConfigBundle) -> (r: Result<(), ValidationError>)
    requires
        b.wf(),
    ensures
        r is Ok <==> segment_gateways_ok(b),
        r matches Err(e) ==> address_error(e),
        r matches Err(e) ==> segment_gateways_refusal(b, e),
{
    let segments = &b.location.segments;
    let mut i: usize = 0;
    while i < segments.len()
        invariant
            b.wf(),
            segments == &b.location.segments,
            i <= segments@.len(),
            forall|j: int|
                0 <= j < i ==> {
                    let s = (#[trigger] segments@[j]).1;
                    v4_contains(s.ipv4_cidr, s.ipv4_gateway)
                },
        decreases segments@.len() - i,
    {
        let segment = &segments[i].1;
        assert(segments@[i as int].1.ipv4_cidr.wf());
        if !ipv4_contains(segment.ipv4_cidr, segment.ipv4_gateway) {
            return Err(
                ValidationError::SegmentGatewayOutside {
                    segment: segments[i].0.clone(),
                    gateway: segment.ipv4_gateway,
                    cidr: segment.ipv4_cidr,
                },
            );
        }
        i = i + 1;
    }
    Ok(())
}

fn check_interface_addresses(b: &ConfigBundle) -> (r: Result<(), ValidationError>)
    requires
        b.wf(),
        location_hosts_ok(b),
    ensures
        r is Ok <==> interface_addresses_ok(b),
        r matches Err(e) ==> address_error(e),
        r matches Err(e) ==> interface_addresses_refusal(b, e),
{
    let hosts = &b.location.hosts;
    let mut i: usize = 0;
    while i < hosts.len()
        invariant
            b.wf(),
            location_hosts_ok(b),
            hosts == &b.location.hosts,
            i <= hosts@.len(),
            forall|p: int, q: int|
                0 <= p < i && 0 <= q < hosts@[p].1.interfaces@.len() ==> {
                    let iface = (#[trigger] hosts@[p].1.interfaces@[q]).1;
                    match (iface.ipv4, lookup(b.location.segments@, iface.segment@)) {
                        (Some(a), Some(seg)) => v4_contains(seg.ipv4_cidr, a),
                        _ => true,
                    }
                },
        decreases hosts@.len() - i,
    {
        let interfaces = &hosts[i].1.interfaces;
        let mut k: usize = 0;
        while k < interfaces.len()
            invariant
                b.wf(),
                location_hosts_ok(b),
                hosts == &b.location.hosts,
                i < hosts@.len(),
                interfaces == &hosts@[i as int].1.interfaces,
                k <= interfaces@.len(),
                forall|p: int, q: int|
                    0 <= p < i && 0 <= q < hosts@[p].1.interfaces@.len() ==> {
                        let iface = (#[trigger] hosts@[p].1.interfaces@[q]).1;
                        match (iface.ipv4, lookup(b.location.segments@, iface.segment@)) {
                            (Some(a), Some(seg)) => v4_contains(seg.ipv4_cidr, a),
                            _ => true,
                        }
                    },
                forall|q: int|
                    0 <= q < k ==> {
                        let iface = (#[trigger] interfaces@[q]).1;
                        match (iface.ipv4, lookup(b.location.segments@, iface.segment@)) {
                            (Some(a), Some(seg)) => v4_contains(seg.ipv4_cidr, a),
                            _ => true,
                        }
                    },
            decreases interfaces@.len() - k,
        {
            let iface = &interfaces[k].1;
            if let Some(address) = iface.ipv4 {
                assert(has_key_at(b, i as int, k as int));
                let s = find(&b.location.segments, iface.segment.as_str());
                let s = s.unwrap();
                let segment = &b.location.segments[s].1;
                assert(b.location.segments@[s as int].1.ipv4_cidr.wf());
                if !ipv4_contains(segment.ipv4_cidr, address) {
                    proof {
                        assert(lookup(b.location.segments@, iface.segment@) == Some(*segment));
                        assert(!interface_address_ok_at(b, i as int, k as int));
                        assert(!host_addresses_ok_at(b, i as int));
                        assert forall|m: int| 0 <= m < k implies #[trigger] interface_address_ok_at(b, i as int, m) by {
                            let _ = interfaces@[m];
                        }
                        assert forall|j: int| 0 <= j < i implies #[trigger] host_addresses_ok_at(b, j) by {
                            assert forall|m: int| 0 <= m < hosts@[j].1.interfaces@.len() implies #[trigger] interface_address_ok_at(b, j, m) by {
                                let _ = hosts@[j].1.interfaces@[m];
                            }
                        }
                    }
                    return Err(
                        ValidationError::InterfaceAddressOutside {
                            host: hosts[i].0.clone(),
                            interface: interfaces[k].0.clone(),
                            address,
                            cidr: segment.ipv4_cidr,
                        },
                    );
                }
            }
            k = k + 1;
        }
        i = i + 1;
    }
    Ok(())
}

/// The segment an attached interface names exists (from `location_hosts_ok`).
spec fn has_key_at(b: &ConfigBundle, i: int, k: int) -> bool {
    crate::table::has_key(b.location.segments@, b.location.hosts@[i].1.interfaces@[k].1.segment@)
}

fn check_network_gateways(b: &ConfigBundle) -> (r: Result<(), ValidationError>)
    requires
        b.wf(),
    ensures
        r is Ok <==> network_gateways_ok(b),
        r matches Err(e) ==> address_error(e),
        r matches Err(e) ==> network_gateways_refusal(b, e),
{
    let networks = &b.networks.networks;
    let mut i: usize = 0;
    while i < networks.len()
        invariant
            b.wf(),
            networks == &b.networks.networks,
            i <= networks@.len(),
            forall|j: int|
                0 <= j < i ==> {
                    let n = (#[trigger] networks@[j]).1;
                    match (n.ipv4_cidr, n.ipv4_gateway) {
                        (Some(c), Some(g)) => v4_contains(c, g),
                        _ => true,
                    }
                },
        decreases networks@.len() - i,
    {
        let network = &networks[i].1;
        if let (Some(cidr), Some(gateway)) = (network.ipv4_cidr, network.ipv4_gateway) {
            assert(networks@[i as int].1.ipv4_cidr matches Some(c) ==> c.wf());
            if !ipv4_contains(cidr, gateway) {
                return Err(
                    ValidationError::NetworkGatewayOutside { network: networks[i].0.clone(), gateway, cidr },
                );
            }
        }
        i = i + 1;
    }
    Ok(())
}

fn port_key_seen(seen: &Vec<(String, u16, TransportProtocol)>, host: &String, port: u16, protocol: TransportProtocol) -> (r: bool)
    ensures
        r == seen@.map_values(|k: (String, u16, TransportProtocol)| (k.0@, k.1, k.2)).contains((host@, port, protocol)),
{
    let ghost view = seen@.map_values(|k: (String, u16, TransportProtocol)| (k.0@, k.1, k.2));
    let mut i: usize = 0;
    while i < seen.len()
        invariant
            i <= seen@.len(),
            view == seen@.map_values(|k: (String, u16, TransportProtocol)| (k.0@, k.1, k.2)),
            forall|j: int| 0 <= j < i ==> view[j] != (host@, port, protocol),
        decreases seen@.len() - i,
    {
        if seen[i].0 == *host && seen[i].1 == port && seen[i].2 == protocol {
            assert(view[i as int] == (host@, port, protocol));
            return true;
        }
        i = i + 1;
    }
    false
}

fn check_services(b: &ConfigBundle) -> (r: Result<(), ValidationError>)
    requires
        b.wf(),
        service_refs_ok(b),
    ensures
        r is Ok <==> ({
            &&& forall|i: int|
                0 <= i < b.services.services@.len() ==> service_address_ok(
                    b,
                    (#[trigger] b.services.services@[i]).1,
                )
            &&& service_ipv4_unique(b.services.services@)
            &&& all_port_keys(b.services.services@).no_duplicates()
        }),
        r matches Err(e) ==> address_error(e),
        r matches Err(e) ==> services_refusal(b, e),
{
    let services = &b.services.services;
    let ghost all = services@;
    let mut seen_ipv4: Vec<u32> = Vec::new();
    let mut seen_ports: Vec<(String, u16, TransportProtocol)> = Vec::new();
    let mut i: usize = 0;
    proof {
        assert(all.take(0) =~= Seq::<(String, Service)>::empty());
        assert(seen_ports@.map_values(|k: (String, u16, TransportProtocol)| (k.0@, k.1, k.2)) =~= all_port_keys(all.take(0)));
    }
    while i < services.len()
        invariant
            b.wf(),
            service_refs_ok(b),
            services == &b.services.services,
            all == services@,
            i <= all.len(),
            forall|j: int| 0 <= j < i ==> service_address_ok(b, (#[trigger] all[j]).1),
            service_ipv4_unique(all.take(i as int)),
            forall|x: u32| seen_ipv4@.contains(x) <==> exists|j: int| 0 <= j < i && service_ipv4(#[trigger] all[j].1) == Some(x),
            seen_ports@.map_values(|k: (String, u16, TransportProtocol)| (k.0@, k.1, k.2)) == all_port_keys(all.take(i as int)),
            all_port_keys(all.take(i as int)).no_duplicates(),
        decreases all.len() - i,
    {
        let name = &services[i].0;
        let service = &services[i].1;
        let ghost svc = all[i as int].1;
        assert(svc == *service);
        proof {
            assert(all.take(i + 1).drop_last() =~= all.take(i as int));
            lemma_all_port_keys_prefix(all, (i + 1) as int);
        }
        let ghost old_seen = seen_ipv4@;
        if let Some(address) = &service.address {
            if let Some(ipv4) = address.ipv4 {
                let n = find(&b.networks.networks, service.network.as_str());
                let n = n.unwrap();
                let network = &b.networks.networks[n].1;
                match network.ipv4_cidr {
                    None => {
                        proof {
                            assert(services_prefix_ok(b, i as int));
                            assert(lookup(b.networks.networks@, svc.network@) == Some(*network));
                        }
                        return Err(
                            ValidationError::ServiceNetworkNoCidr {
                                service: name.clone(),
                                address: ipv4,
                                network: service.network.clone(),
                            },
                        );
                    },
                    Some(cidr) => {
                        assert(b.networks.networks@[n as int].1.ipv4_cidr matches Some(c) ==> c.wf());
                        if !ipv4_contains(cidr, ipv4) {
                            proof {
                                assert(services_prefix_ok(b, i as int));
                                assert(lookup(b.networks.networks@, svc.network@) == Some(*network));
                            }
                            return Err(
                                ValidationError::ServiceAddressOutside {
                                    service: name.clone(),
                                    address: ipv4,
                                    network: service.network.clone(),
                                    cidr,
                                },
                            );
                        }
                    },
                }
                if u32_in(&seen_ipv4, ipv4) {
                    proof {
                        let j = choose|j: int| 0 <= j < i && service_ipv4(#[trigger] all[j].1) == Some(ipv4);
                        assert(service_ipv4(all[i as int].1) == Some(ipv4));
                    }
                    proof {
                        assert(services_prefix_ok(b, i as int));
                        assert(service_address_ok(b, svc));
                    }
                    return Err(ValidationError::DuplicateServiceIpv4 { address: ipv4 });
                }
                seen_ipv4.push(ipv4);
            }
        }
        proof {
            assert forall|x: u32| seen_ipv4@.contains(x) <==> exists|j: int| 0 <= j < i + 1 && service_ipv4(#[trigger] all[j].1) == Some(x) by {
                if seen_ipv4@.contains(x) {
                    if old_seen.contains(x) {
                        let j = choose|j: int| 0 <= j < i && service_ipv4(#[trigger] all[j].1) == Some(x);
                        assert(0 <= j < i + 1);
                    } else {
                        let k = choose|k: int| 0 <= k < seen_ipv4@.len() && seen_ipv4@[k] == x;
                        assert(k == old_seen.len());
                        assert(service_ipv4(all[i as int].1) == Some(x));
                    }
                }
                if exists|j: int| 0 <= j < i + 1 && service_ipv4(#[trigger] all[j].1) == Some(x) {
                    let j = choose|j: int| 0 <= j < i + 1 && service_ipv4(#[trigger] all[j].1) == Some(x);
                    if j < i {
                        assert(old_seen.contains(x));
                        let k = choose|k: int| 0 <= k < old_seen.len() && old_seen[k] == x;
                        assert(seen_ipv4@[k] == x);
                    } else {
                        assert(seen_ipv4@.last() == x);
                    }
                }
            }
        }
        proof {
            assert forall|p: int, q: int|
                0 <= p < q < all.take(i + 1).len() implies match (
                    service_ipv4(#[trigger] all.take(i + 1)[p].1),
                    service_ipv4(#[trigger] all.take(i + 1)[q].1),
                ) {
                    (Some(a), Some(c)) => a != c,
                    _ => true,
                } by {
                if q < i {
                    assert(all.take(i as int)[p] == all.take(i + 1)[p]);
                    assert(all.take(i as int)[q] == all.take(i + 1)[q]);
                } else {
                    if let Some(a) = service_ipv4(all[p].1) {
                        assert(seen_ipv4@.contains(a) || true);
                    }
                }
            }
        }
        proof {
            assert(services_prefix_ok(b, i as int));
            assert(service_address_ok(b, svc));
            if service_ipv4(svc) is Some {
                let a = service_ipv4(svc)->0;
                assert(!old_seen.contains(a));
            }
        }
        let ghost ipv4_fresh = !(service_ipv4(svc) is Some && exists|j: int| 0 <= j < i && service_ipv4(#[trigger] all[j].1) == Some(service_ipv4(svc)->0));
        assert(ipv4_fresh);
        let ghost base = seen_ports@.map_values(|k: (String, u16, TransportProtocol)| (k.0@, k.1, k.2));
        let mut m: usize = 0;
        while m < service.ports.len()
            invariant
                services == &b.services.services,
                all == services@,
                service == &all[i as int].1,
                m <= service.ports@.len(),
                i < all.len(),
                all_port_keys(all.take(i + 1)) == all_port_keys(all.take(i as int)) + service_port_keys(*service),
                base == all_port_keys(all.take(i as int)),
                seen_ports@.map_values(|k: (String, u16, TransportProtocol)| (k.0@, k.1, k.2)) == base
                    + service_port_keys(*service).take(m as int),
                (base + service_port_keys(*service).take(m as int)).no_duplicates(),
                all_port_keys(all).take(all_port_keys(all.take(i + 1)).len() as int) == all_port_keys(all.take(i + 1)),
                all_port_keys(all).len() >= all_port_keys(all.take(i + 1)).len(),
                all == b.services.services@,
                svc == all[i as int].1,
                services_prefix_ok(b, i as int),
                service_address_ok(b, svc),
                ipv4_fresh == !(service_ipv4(svc) is Some && exists|j: int| 0 <= j < i && service_ipv4(#[trigger] all[j].1) == Some(service_ipv4(svc)->0)),
                ipv4_fresh,
            decreases service.ports@.len() - m,
        {
            let port = &service.ports[m];
            let dup = port_key_seen(&seen_ports, &service.host, port.host, port.protocol);
            let ghost key = (service.host@, port.host, port.protocol);
            assert(service_port_keys(*service)[m as int] == key);
            if dup {
                proof {
                    let pre = base + service_port_keys(*service).take(m + 1);
                    let old_view = base + service_port_keys(*service).take(m as int);
                    let x = choose|x: int| 0 <= x < old_view.len() && old_view[x] == key;
                    assert(pre[x] == key);
                    assert(pre[pre.len() - 1] == key);
                    assert(!pre.no_duplicates());
                    assert(all_port_keys(all.take(i + 1)).take(pre.len() as int) =~= pre);
                    assert(all_port_keys(all).take(pre.len() as int) =~= pre);
                    lemma_dup_in_prefix(all_port_keys(all), pre);
                    assert(old_view.contains(service_port_keys(*service)[m as int]));
                    assert(service_refusal(b, i as int, ValidationError::DuplicateHostPort { host: service.host, port: port.host, protocol: port.protocol }));
                }
                return Err(
                    ValidationError::DuplicateHostPort {
                        host: service.host.clone(),
                        port: port.host,
                        protocol: port.protocol,
                    },
                );
            }
            let ghost old_view = base + service_port_keys(*service).take(m as int);
            seen_ports.push((service.host.clone(), port.host, port.protocol));
            m = m + 1;
            proof {
                let now = seen_ports@.map_values(|k: (String, u16, TransportProtocol)| (k.0@, k.1, k.2));
                assert(now =~= old_view.push(key));
                assert(service_port_keys(*service).take(m as int) =~= service_port_keys(*service).take(m - 1).push(key));
                assert(now =~= base + service_port_keys(*service).take(m as int));
                assert forall|p: int, q: int| 0 <= p < now.len() && 0 <= q < now.len() && p != q implies now[p] != now[q] by {
                    if p < old_view.len() && q < old_view.len() {
                        assert(now[p] == old_view[p]);
                        assert(now[q] == old_view[q]);
                    } else if p < old_view.len() {
                        assert(now[p] == old_view[p]);
                        assert(old_view.contains(now[p]) ==> true);
                    } else if q < old_view.len() {
                        assert(now[q] == old_view[q]);
                    }
                }
            }
        }
        if let Some(ssh) = &service.ssh {
            let dup = port_key_seen(&seen_ports, &service.host, ssh.host_port, TransportProtocol::Tcp);
            let ghost key = (service.host@, ssh.host_port, TransportProtocol::Tcp);
            let ghost old_view = base + service_port_keys(*service).take(m as int);
            assert(service_port_keys(*service)[m as int] == key);
            assert(service_port_keys(*service).len() == m + 1);
            if dup {
                proof {
                    let pre = base + service_port_keys(*service);
                    let x = choose|x: int| 0 <= x < old_view.len() && old_view[x] == key;
                    assert(pre[x] == key);
                    assert(pre[pre.len() - 1] == key);
                    assert(!pre.no_duplicates());
                    lemma_dup_in_prefix(all_port_keys(all), pre);
                    assert(old_view.contains(service_port_keys(*service)[m as int]));
                    assert(service_refusal(b, i as int, ValidationError::DuplicateHostPort { host: service.host, port: ssh.host_port, protocol: TransportProtocol::Tcp }));
                }
                return Err(
                    ValidationError::DuplicateHostPort {
                        host: service.host.clone(),
                        port: ssh.host_port,
                        protocol: TransportProtocol::Tcp,
                    },
                );
            }
            seen_ports.push((service.host.clone(), ssh.host_port, TransportProtocol::Tcp));
            proof {
                let now = seen_ports@.map_values(|k: (String, u16, TransportProtocol)| (k.0@, k.1, k.2));
                assert(now =~= old_view.push(key));
                assert(service_port_keys(*service).take(m + 1) =~= service_port_keys(*service));
                assert forall|p: int, q: int| 0 <= p < now.len() && 0 <= q < now.len() && p != q implies now[p] != now[q] by {
                    if p < old_view.len() && q < old_view.len() {
                        assert(now[p] == old_view[p]);
                        assert(now[q] == old_view[q]);
                    } else if p < old_view.len() {
                        assert(now[p] == old_view[p]);
                    } else if q < old_view.len() {
                        assert(now[q] == old_view[q]);
                    }
                }
                assert(now =~= all_port_keys(all.take(i + 1)));
            }
        } else {
            proof {
                assert(service_port_keys(*service).len() == m);
                assert(service_port_keys(*service).take(m as int) =~= service_port_keys(*service));
            }
        }
        i = i + 1;
    }
    proof {
        assert(all.take(all.len() as int) =~= all);
    }
    Ok(())
}

/// Checks every address rule.
pub fn validate_addresses(b: &ConfigBundle) -> (r: Result<(), ValidationError>)
    requires
        b.wf(),
        location_hosts_ok(b),
        service_refs_ok(b),
    ensures
        r is Ok <==> addresses_ok(b),
        r matches Err(e) ==> address_error(e),
        r matches Err(e) ==> addresses_refusal(b, e),
{
    check_segment_gateways(b)?;
    check_interface_addresses(b)?;
    check_network_gateways(b)?;
    check_services(b)?;
    Ok(())
}

} // verus!
