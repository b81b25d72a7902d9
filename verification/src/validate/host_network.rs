//! Host network profiles: links, bridges, VLANs and management attachment.

use vstd::prelude::*;

use super::vlan::{validate_vlan_expression, vlan_expression_ok, vlan_expression_refusal};
use super::{host_network_error, ValidationError};
use crate::model::{ConfigBundle, Host, HostNetworkBridge, HostNetworkConfig, InterfaceIpv6Mode, Ipv6Mode, LocationHost};
use crate::plan::dns::host_ipv4_of;
use crate::table::{
    contains_key, find, flat_map, has_key, lemma_dup_in_prefix, lemma_flat_map_prefix, lemma_flat_map_step,
    lemma_push_no_duplicates, lookup, string_in, texts, unique_keys,
};
use crate::text::{blank, is_blank};

verus! {

/// Every recorded holder is a location interface of its host with the
/// recorded address.
pub open spec fn holders_ok(b: &ConfigBundle, v: Seq<(u32, String, String)>) -> bool {
    forall|t: int| 0 <= t < v.len() ==> host_ipv4_of(b, (#[trigger] v[t]).1@, v[t].2@) == Some(v[t].0)
}

/// The addresses recorded as taken.
pub open spec fn seen_addrs(v: Seq<(u32, String, String)>) -> Seq<u32> {
    v.map_values(|e: (u32, String, String)| e.0)
}

/// Link names are not blank and not repeated.
pub open spec fn links_ok(net: HostNetworkConfig) -> bool {
    &&& forall|i: int| 0 <= i < net.links@.len() ==> !blank((#[trigger] net.links@[i]).name@)
    &&& link_names(net).no_duplicates()
}

pub open spec fn link_names(net: HostNetworkConfig) -> Seq<Seq<char>> {
    net.links@.map_values(|l: crate::model::HostNetworkLink| l.name@)
}

pub open spec fn bridge_names(bridges: Seq<HostNetworkBridge>) -> Seq<Seq<char>> {
    bridges.map_values(|br: HostNetworkBridge| br.name@)
}

/// The ports of the bridges, bridge by bridge.
pub open spec fn bridge_ports(bridges: Seq<HostNetworkBridge>) -> Seq<Seq<char>> {
    flat_map(bridges, |br: HostNetworkBridge| texts(br.ports@))
}

/// Number of bridges attached to the location interface `mgmt`.
pub open spec fn mgmt_count(bridges: Seq<HostNetworkBridge>, mgmt: Seq<char>) -> nat
    decreases bridges.len(),
{
    if bridges.len() == 0 {
        0
    } else {
        mgmt_count(bridges.drop_last(), mgmt) + if bridges.last().location_interface matches Some(i)
            && i@ == mgmt {
            1nat
        } else {
            0nat
        }
    }
}

/// The rules for one bridge of a host attached at the location as `lh`: a
/// name; VLANs only on VLAN-aware bridges and as a valid list; ports that are
/// links of the host; and, when attached to a location interface, an
/// interface that exists on an existing segment, whose address is not the
/// segment gateway and which asks for SLAAC only where IPv6 is enabled.
pub open spec fn bridge_ok(b: &ConfigBundle, lh: LocationHost, net: HostNetworkConfig, br: HostNetworkBridge) -> bool {
    &&& !blank(br.name@)
    &&& (br.allowed_vlans is Some ==> br.vlan_aware)
    &&& (br.allowed_vlans matches Some(v) ==> vlan_expression_ok(v@))
    &&& forall|p: int| 0 <= p < br.ports@.len() ==> link_names(net).contains((#[trigger] br.ports@[p])@)
    &&& attachment_ok(b, lh, br)
}

/// A bridge attached to a location interface names an interface of the host
/// that sits on an existing segment, does not take the segment gateway's
/// address, and asks for SLAAC only where the location enables IPv6.
pub open spec fn attachment_ok(b: &ConfigBundle, lh: LocationHost, br: HostNetworkBridge) -> bool {
    match br.location_interface {
        None => true,
        Some(i) => match lookup(lh.interfaces@, i@) {
            None => false,
            Some(iface) => match lookup(b.location.segments@, iface.segment@) {
                None => false,
                Some(seg) => {
                    &&& (iface.ipv4 matches Some(a) ==> a != seg.ipv4_gateway)
                    &&& !(iface.ipv6_mode == Some(InterfaceIpv6Mode::Slaac) && b.location.ipv6.mode
                        == Ipv6Mode::Disabled)
                },
            },
        },
    }
}

/// The bridge rules of one host, together: every bridge is valid, names and
/// claimed links are not repeated, exactly one bridge carries the management
/// interface, and that interface exists at the location.
pub open spec fn bridges_ok(b: &ConfigBundle, lh: LocationHost, net: HostNetworkConfig) -> bool {
    &&& forall|k: int| 0 <= k < net.bridges@.len() ==> bridge_ok(b, lh, net, #[trigger] net.bridges@[k])
    &&& bridge_names(net.bridges@).no_duplicates()
    &&& bridge_ports(net.bridges@).no_duplicates()
    &&& mgmt_count(net.bridges@, net.management_interface@) == 1
    &&& has_key(lh.interfaces@, net.management_interface@)
}

/// The static address a bridge takes from its location interface.
pub open spec fn bridge_ipv4(lh: LocationHost, br: HostNetworkBridge) -> Seq<u32> {
    match br.location_interface {
        Some(i) => match lookup(lh.interfaces@, i@) {
            Some(iface) => match iface.ipv4 {
                Some(a) => seq![a],
                None => Seq::<u32>::empty(),
            },
            None => Seq::<u32>::empty(),
        },
        None => Seq::<u32>::empty(),
    }
}

pub open spec fn bridges_ipv4s(lh: LocationHost, bridges: Seq<HostNetworkBridge>) -> Seq<u32> {
    flat_map(bridges, |br: HostNetworkBridge| bridge_ipv4(lh, br))
}

/// The host's network profile, when it is enabled and has one.
pub open spec fn active_profile(h: Host) -> Option<HostNetworkConfig> {
    if h.enabled {
        h.network
    } else {
        None
    }
}

/// The bridge addresses a host contributes.
pub open spec fn host_ipv4s(b: &ConfigBundle, entry: (String, Host)) -> Seq<u32> {
    match (active_profile(entry.1), lookup(b.location.hosts@, entry.0@)) {
        (Some(net), Some(lh)) => bridges_ipv4s(lh, net.bridges@),
        _ => Seq::<u32>::empty(),
    }
}

pub open spec fn all_host_ipv4s(b: &ConfigBundle, hosts: Seq<(String, Host)>) -> Seq<u32> {
    flat_map(hosts, |e: (String, Host)| host_ipv4s(b, e))
}

/// A host with an active network profile is attached at the location and its
/// links and bridges are valid.
pub open spec fn host_network_ok(b: &ConfigBundle, name: Seq<char>, net: HostNetworkConfig) -> bool {
    match lookup(b.location.hosts@, name) {
        None => false,
        Some(lh) => links_ok(net) && bridges_ok(b, lh, net),
    }
}

/// All host network rules: each active profile is valid and no static
/// address is taken by two bridges.
pub open spec fn host_networks_ok(b: &ConfigBundle) -> bool {
    &&& forall|i: int|
        0 <= i < b.inventory.hosts@.len() ==> match active_profile((#[trigger] b.inventory.hosts@[i]).1) {
            Some(net) => host_network_ok(b, b.inventory.hosts@[i].0@, net),
            None => true,
        }
    &&& all_host_ipv4s(b, b.inventory.hosts@).no_duplicates()
}

/// The first link of `host` with a blank or repeated name.
pub open spec fn links_refusal(host: Seq<char>, net: HostNetworkConfig, e: ValidationError) -> bool {
    let ls = net.links@;
    exists|k: int| #![trigger ls[k]] 0 <= k < ls.len() && link_names(net).take(k).no_duplicates()
        && (forall|j: int| 0 <= j < k ==> !blank((#[trigger] ls[j]).name@))
        && if blank(ls[k].name@) {
            e matches ValidationError::EmptyLinkName { host: h } && h@ == host
        } else {
            link_names(net).take(k).contains(ls[k].name@)
                && (e matches ValidationError::DuplicateLink { host: h, link } && h@ == host && link@ == ls[k].name@)
        }
}

/// Why the location interface of bridge `br` of `host` is refused, where
/// `taken` holds the addresses taken before: the interface is missing, its
/// segment unknown, its address the gateway or taken, or it asks for SLAAC
/// where IPv6 is disabled; a taken address is reported with an interface
/// that holds it.
pub open spec fn attachment_refusal(b: &ConfigBundle, host: Seq<char>, lh: LocationHost, br: HostNetworkBridge, taken: Seq<u32>, e: ValidationError) -> bool {
    let i = br.location_interface->0@;
    match lookup(lh.interfaces@, i) {
        None => e matches ValidationError::BridgeMissingInterface { host: h, bridge, interface }
            && h@ == host && bridge@ == br.name@ && interface@ == i,
        Some(iface) => match lookup(b.location.segments@, iface.segment@) {
            None => e matches ValidationError::InterfaceUnknownSegment { host: h, interface, segment }
                && h@ == host && interface@ == i && segment@ == iface.segment@,
            Some(seg) => if iface.ipv4 matches Some(a) && a == seg.ipv4_gateway {
                e matches ValidationError::AddressIsGateway { host: h, interface, address, segment }
                    && h@ == host && interface@ == i && Some(address) == iface.ipv4 && segment@ == iface.segment@
            } else if iface.ipv4 matches Some(a) && taken.contains(a) {
                e matches ValidationError::DuplicateHostIpv4 { address, host: h, interface, other_host, other_interface }
                    && Some(address) == iface.ipv4 && h@ == host && interface@ == i
                    && host_ipv4_of(b, other_host@, other_interface@) == Some(address)
            } else {
                e matches ValidationError::SlaacWithoutIpv6 { host: h, interface, location }
                    && h@ == host && interface@ == i && location@ == b.location.name@
            },
        },
    }
}

/// The ports of bridge `br` are links of the host and claimed by no bridge
/// before (`claimed`) nor twice by `br`.
pub open spec fn bridge_ports_ok(net: HostNetworkConfig, claimed: Seq<Seq<char>>, br: HostNetworkBridge) -> bool {
    &&& forall|p: int| 0 <= p < br.ports@.len() ==> link_names(net).contains((#[trigger] br.ports@[p])@)
    &&& (claimed + texts(br.ports@)).no_duplicates()
}

/// The first `k` bridges of `net` are accepted among themselves, with
/// `base` the addresses taken by earlier hosts.
pub open spec fn bridges_prefix_ok(b: &ConfigBundle, lh: LocationHost, net: HostNetworkConfig, base: Seq<u32>, k: int) -> bool {
    let all = net.bridges@;
    &&& forall|j: int| 0 <= j < k ==> bridge_ok(b, lh, net, #[trigger] all[j])
    &&& bridge_names(all.take(k)).no_duplicates()
    &&& bridge_ports(all.take(k)).no_duplicates()
    &&& (base + bridges_ipv4s(lh, all.take(k))).no_duplicates()
}

/// Why bridge `k` of `host` is refused after the bridges before it were
/// accepted, checked in this order: its name; its VLAN list; its first port
/// that is no link or is claimed before (the bridge that claimed it is not
/// stated); its location interface.
pub open spec fn bridge_refusal(b: &ConfigBundle, host: Seq<char>, lh: LocationHost, net: HostNetworkConfig, base: Seq<u32>, k: int, e: ValidationError) -> bool {
    let all = net.bridges@;
    let br = all[k];
    let claimed = bridge_ports(all.take(k));
    let ports = texts(br.ports@);
    if blank(br.name@) {
        e matches ValidationError::EmptyBridgeName { host: h } && h@ == host
    } else if bridge_names(all.take(k)).contains(br.name@) {
        e matches ValidationError::DuplicateBridge { host: h, bridge } && h@ == host && bridge@ == br.name@
    } else if br.allowed_vlans is Some && !br.vlan_aware {
        e matches ValidationError::VlansWithoutVlanAware { host: h, bridge } && h@ == host && bridge@ == br.name@
    } else if br.allowed_vlans matches Some(v) && !vlan_expression_ok(v@) {
        vlan_expression_refusal(host, br.name@, br.allowed_vlans->0@, e)
    } else if !bridge_ports_ok(net, claimed, br) {
        exists|m: int| #![trigger ports[m]] 0 <= m < ports.len()
            && (forall|p: int| 0 <= p < m ==> link_names(net).contains(#[trigger] ports[p]))
            && (claimed + ports.take(m)).no_duplicates()
            && if !link_names(net).contains(ports[m]) {
                e matches ValidationError::BridgeUnknownLink { host: h, bridge, port } && h@ == host && bridge@ == br.name@ && port@ == ports[m]
            } else {
                (claimed + ports.take(m)).contains(ports[m]) && (e matches ValidationError::LinkInTwoBridges { host: h, link, bridge, .. }
                    && h@ == host && link@ == ports[m] && bridge@ == br.name@)
            }
    } else {
        attachment_refusal(b, host, lh, br, base + bridges_ipv4s(lh, all.take(k)), e)
    }
}

/// Why the bridges of `host` are refused: the first bridge refused; else no
/// or several bridges on the management interface; else that interface is
/// not defined at the location.
pub open spec fn bridges_refusal(b: &ConfigBundle, host: Seq<char>, lh: LocationHost, net: HostNetworkConfig, base: Seq<u32>, e: ValidationError) -> bool {
    let all = net.bridges@;
    if !bridges_prefix_ok(b, lh, net, base, all.len() as int) {
        exists|k: int| 0 <= k < all.len() && #[trigger] bridges_prefix_ok(b, lh, net, base, k) && bridge_refusal(b, host, lh, net, base, k, e)
    } else if mgmt_count(all, net.management_interface@) == 0 {
        e matches ValidationError::NoManagementBridge { host: h, interface } && h@ == host && interface@ == net.management_interface@
    } else if mgmt_count(all, net.management_interface@) > 1 {
        e matches ValidationError::MultipleManagementBridges { host: h, interface } && h@ == host && interface@ == net.management_interface@
    } else {
        e matches ValidationError::ManagementInterfaceUndefined { host: h, interface, location }
            && h@ == host && interface@ == net.management_interface@ && location@ == b.location.name@
    }
}

/// The first `n` inventory hosts are accepted among themselves.
pub open spec fn hosts_prefix_ok(b: &ConfigBundle, n: int) -> bool {
    let all = b.inventory.hosts@;
    &&& forall|j: int| 0 <= j < n ==> match active_profile((#[trigger] all[j]).1) {
        Some(net) => host_network_ok(b, all[j].0@, net),
        None => true,
    }
    &&& all_host_ipv4s(b, all.take(n)).no_duplicates()
}

/// Why the host network rules are refused: the first host with an active
/// profile that is refused, because it is not attached, or its links or its
/// bridges are refused.
pub open spec fn host_networks_refusal(b: &ConfigBundle, e: ValidationError) -> bool {
    let all = b.inventory.hosts@;
    exists|i: int| 0 <= i < all.len() && #[trigger] hosts_prefix_ok(b, i) && active_profile(all[i].1) is Some && {
        let name = all[i].0@;
        let net = active_profile(all[i].1)->0;
        match lookup(b.location.hosts@, name) {
            None => e matches ValidationError::HostNetworkNotAttached { host, location } && host@ == name && location@ == b.location.name@,
            Some(lh) => if !links_ok(net) {
                links_refusal(name, net, e)
            } else {
                bridges_refusal(b, name, lh, net, all_host_ipv4s(b, all.take(i)), e)
            },
        }
    }
}

fn check_links(host_name: &String, net: &HostNetworkConfig) -> (r: Result<(), ValidationError>)
    ensures
        r is Ok <==> links_ok(*net),
        r matches Err(e) ==> host_network_error(e),
        r matches Err(e) ==> links_refusal(host_name@, *net, e),
{
    let links = &net.links;
    let mut names: Vec<String> = Vec::new();
    let mut i: usize = 0;
    while i < links.len()
        invariant
            links == &net.links,
            i <= links@.len(),
            forall|j: int| 0 <= j < i ==> !blank((#[trigger] links@[j]).name@),
            texts(names@) == link_names(*net).take(i as int),
            texts(names@).no_duplicates(),
        decreases links@.len() - i,
    {
        let link = &links[i];
        if is_blank(link.name.as_str()) {
            return Err(ValidationError::EmptyLinkName { host: host_name.clone() });
        }
        let dup = string_in(&names, link.name.as_str());
        proof {
            lemma_push_no_duplicates(texts(names@), link.name@);
            assert(link_names(*net).take(i + 1) =~= link_names(*net).take(i as int).push(link.name@));
        }
        if dup {
            proof {
                lemma_dup_in_prefix(link_names(*net), link_names(*net).take(i + 1));
            }
            return Err(ValidationError::DuplicateLink { host: host_name.clone(), link: link.name.clone() });
        }
        names.push(link.name.clone());
        proof {
            assert(texts(names@) =~= link_names(*net).take(i + 1));
        }
        i = i + 1;
    }
    proof {
        assert(link_names(*net).take(links@.len() as int) =~= link_names(*net));
    }
    Ok(())
}

fn check_bridge_attachment(
    b: &ConfigBundle,
    host_name: &String,
    lh: &LocationHost,
    br: &HostNetworkBridge,
    seen: &mut Vec<(u32, String, String)>,
) -> (r: Result<(), ValidationError>)
    requires
        b.wf(),
        unique_keys(lh.interfaces@),
        seen_addrs(old(seen)@).no_duplicates(),
        holders_ok(b, old(seen)@),
        lookup(b.location.hosts@, host_name@) == Some(*lh),
    ensures
        holders_ok(b, final(seen)@),
        r is Ok <==> ({
            &&& attachment_ok(b, *lh, *br)
            &&& (seen_addrs(old(seen)@) + bridge_ipv4(*lh, *br)).no_duplicates()
        }),
        r is Ok ==> seen_addrs(final(seen)@) == seen_addrs(old(seen)@) + bridge_ipv4(*lh, *br),
        r matches Err(e) ==> host_network_error(e),
        r matches Err(e) ==> br.location_interface is Some && attachment_refusal(b, host_name@, *lh, *br, seen_addrs(old(seen)@), e),
{
    let ghost before = seen_addrs(seen@);
    let interface_name = match &br.location_interface {
        None => {
            assert(before + bridge_ipv4(*lh, *br) =~= before);
            return Ok(());
        },
        Some(i) => i,
    };
    let f = find(&lh.interfaces, interface_name.as_str());
    let fi = match f {
        None => {
            return Err(
                ValidationError::BridgeMissingInterface {
                    host: host_name.clone(),
                    bridge: br.name.clone(),
                    interface: interface_name.clone(),
                },
            );
        },
        Some(fi) => fi,
    };
    let iface = &lh.interfaces[fi].1;
    let s = find(&b.location.segments, iface.segment.as_str());
    let si = match s {
        None => {
            return Err(
                ValidationError::InterfaceUnknownSegment {
                    host: host_name.clone(),
                    interface: interface_name.clone(),
                    segment: iface.segment.clone(),
                },
            );
        },
        Some(si) => si,
    };
    let segment = &b.location.segments[si].1;
    if let Some(ipv4) = iface.ipv4 {
        if ipv4 == segment.ipv4_gateway {
            return Err(
                ValidationError::AddressIsGateway {
                    host: host_name.clone(),
                    interface: interface_name.clone(),
                    address: ipv4,
                    segment: iface.segment.clone(),
                },
            );
        }
        assert(bridge_ipv4(*lh, *br) == seq![ipv4]);
        assert(lookup(lh.interfaces@, interface_name@) == Some(*iface));
        assert(lookup(b.location.segments@, iface.segment@) == Some(*segment));
        let mut k: usize = 0;
        while k < seen.len()
            invariant
                br.location_interface == Some(*interface_name),
                lookup(lh.interfaces@, interface_name@) == Some(*iface),
                lookup(b.location.segments@, iface.segment@) == Some(*segment),
                iface.ipv4 == Some(ipv4),
                ipv4 != segment.ipv4_gateway,
                holders_ok(b, seen@),
                k <= seen@.len(),
                before == seen_addrs(seen@),
                before.no_duplicates(),
                bridge_ipv4(*lh, *br) == seq![ipv4],
                forall|j: int| 0 <= j < k ==> before[j] != ipv4,
            decreases seen@.len() - k,
        {
            if seen[k].0 == ipv4 {
                proof {
                    assert(before[k as int] == ipv4);
                    assert(before.contains(ipv4));
                    assert(host_ipv4_of(b, seen@[k as int].1@, seen@[k as int].2@) == Some(seen@[k as int].0));
                    lemma_push_no_duplicates(before, ipv4);
                    assert(before + seq![ipv4] =~= before.push(ipv4));
                }
                return Err(
                    ValidationError::DuplicateHostIpv4 {
                        address: ipv4,
                        other_host: seen[k].1.clone(),
                        other_interface: seen[k].2.clone(),
                        host: host_name.clone(),
                        interface: interface_name.clone(),
                    },
                );
            }
            k = k + 1;
        }
        proof {
            lemma_push_no_duplicates(before, ipv4);
            assert(!before.contains(ipv4));
        }
        seen.push((ipv4, host_name.clone(), interface_name.clone()));
        proof {
            assert forall|t: int| 0 <= t < seen@.len() implies host_ipv4_of(b, (#[trigger] seen@[t]).1@, seen@[t].2@) == Some(seen@[t].0) by {
                if t < seen@.len() - 1 {
                    assert(seen@[t] == old(seen)@[t]);
                }
            }
            assert(seen_addrs(seen@) =~= before + seq![ipv4]);
        }
    } else {
        assert(before + bridge_ipv4(*lh, *br) =~= before);
    }
    let slaac = match iface.ipv6_mode {
        Some(InterfaceIpv6Mode::Slaac) => true,
        _ => false,
    };
    if slaac && b.location.ipv6.mode == Ipv6Mode::Disabled {
        return Err(
            ValidationError::SlaacWithoutIpv6 {
                host: host_name.clone(),
                interface: interface_name.clone(),
                location: b.location.name.clone(),
            },
        );
    }
    Ok(())
}

fn check_bridges(
    b: &ConfigBundle,
    host_name: &String,
    lh: &LocationHost,
    net: &HostNetworkConfig,
    seen: &mut Vec<(u32, String, String)>,
) -> (r: Result<(), ValidationError>)
    requires
        b.wf(),
        unique_keys(lh.interfaces@),
        seen_addrs(old(seen)@).no_duplicates(),
        holders_ok(b, old(seen)@),
        lookup(b.location.hosts@, host_name@) == Some(*lh),
    ensures
        holders_ok(b, final(seen)@),
        r is Ok <==> bridges_ok(b, *lh, *net) && (seen_addrs(old(seen)@)
            + bridges_ipv4s(*lh, net.bridges@)).no_duplicates(),
        r is Ok ==> seen_addrs(final(seen)@) == seen_addrs(old(seen)@) + bridges_ipv4s(*lh, net.bridges@),
        r matches Err(e) ==> host_network_error(e),
        r matches Err(e) ==> bridges_refusal(b, host_name@, *lh, *net, seen_addrs(old(seen)@), e),
{
    let bridges = &net.bridges;
    let ghost all = bridges@;
    let ghost base = seen_addrs(seen@);
    let ghost gp = |br: HostNetworkBridge| texts(br.ports@);
    let ghost gi = |br: HostNetworkBridge| bridge_ipv4(*lh, br);
    let mut names: Vec<String> = Vec::new();
    let mut claimed: Vec<(String, String)> = Vec::new();
    let mut count: usize = 0;
    let mut k: usize = 0;
    proof {
        assert(all.take(0) =~= Seq::<HostNetworkBridge>::empty());
        assert(base + bridges_ipv4s(*lh, all.take(0)) =~= base);
    }
    while k < bridges.len()
        invariant
            b.wf(),
            unique_keys(lh.interfaces@),
            bridges == &net.bridges,
            all == bridges@,
            k <= all.len(),
            base == seen_addrs(old(seen)@),
            count == mgmt_count(all.take(k as int), net.management_interface@),
            count <= k,
            forall|j: int| 0 <= j < k ==> bridge_ok(b, *lh, *net, #[trigger] all[j]),
            texts(names@) == bridge_names(all.take(k as int)),
            texts(names@).no_duplicates(),
            claimed@.map_values(|c: (String, String)| c.0@) == bridge_ports(all.take(k as int)),
            bridge_ports(all.take(k as int)).no_duplicates(),
            seen_addrs(seen@) == base + bridges_ipv4s(*lh, all.take(k as int)),
            (base + bridges_ipv4s(*lh, all.take(k as int))).no_duplicates(),
            gp == |br: HostNetworkBridge| texts(br.ports@),
            gi == |br: HostNetworkBridge| bridge_ipv4(*lh, br),
            holders_ok(b, seen@),
            lookup(b.location.hosts@, host_name@) == Some(*lh),
        decreases all.len() - k,
    {
        let br = &bridges[k];
        proof {
            lemma_flat_map_step(all, gp, k as int);
            lemma_flat_map_step(all, gi, k as int);
            lemma_flat_map_prefix(all, gp, (k + 1) as int);
            lemma_flat_map_prefix(all, gi, (k + 1) as int);
            assert(all.take(k + 1).drop_last() =~= all.take(k as int));
            assert(bridge_names(all.take(k + 1)) =~= bridge_names(all.take(k as int)).push(br.name@));
            assert(bridge_names(all).take(k + 1) =~= bridge_names(all.take(k + 1)));
            assert(bridges_prefix_ok(b, *lh, *net, base, k as int));
            assert(all.take(all.len() as int) =~= all);
        }
        if is_blank(br.name.as_str()) {
            proof {
                assert(!bridge_ok(b, *lh, *net, all[k as int]));
            }
            return Err(ValidationError::EmptyBridgeName { host: host_name.clone() });
        }
        let dup = string_in(&names, br.name.as_str());
        proof {
            lemma_push_no_duplicates(texts(names@), br.name@);
        }
        if dup {
            proof {
                lemma_dup_in_prefix(bridge_names(all), bridge_names(all.take(k + 1)));
                assert(bridge_names(all.take(k as int)).contains(br.name@));
            }
            return Err(ValidationError::DuplicateBridge { host: host_name.clone(), bridge: br.name.clone() });
        }
        names.push(br.name.clone());
        proof {
            assert(texts(names@) =~= bridge_names(all.take(k + 1)));
        }
        if br.allowed_vlans.is_some() && !br.vlan_aware {
            proof {
                assert(!bridge_ok(b, *lh, *net, all[k as int]));
            }
            return Err(
                ValidationError::VlansWithoutVlanAware { host: host_name.clone(), bridge: br.name.clone() },
            );
        }
        if let Some(vlans) = &br.allowed_vlans {
            match validate_vlan_expression(host_name.as_str(), br.name.as_str(), vlans.as_str()) {
                Ok(()) => {},
                Err(e) => {
                    proof {
                        assert(!bridge_ok(b, *lh, *net, all[k as int]));
                    }
                    return Err(e);
                },
            }
        }
        let ghost port_base = bridge_ports(all.take(k as int));
        let mut m: usize = 0;
        while m < br.ports.len()
            invariant
                br == &all[k as int],
                k < all.len(),
                all == bridges@,
                bridges == &net.bridges,
                m <= br.ports@.len(),
                port_base == bridge_ports(all.take(k as int)),
                bridge_ports(all.take(k + 1)) == port_base + texts(br.ports@),
                bridge_ports(all).take(bridge_ports(all.take(k + 1)).len() as int) == bridge_ports(all.take(k + 1)),
                bridge_ports(all).len() >= bridge_ports(all.take(k + 1)).len(),
                claimed@.map_values(|c: (String, String)| c.0@) == port_base + texts(br.ports@).take(m as int),
                (port_base + texts(br.ports@).take(m as int)).no_duplicates(),
                forall|p: int| 0 <= p < m ==> link_names(*net).contains((#[trigger] br.ports@[p])@),
                b.wf(),
                base == seen_addrs(old(seen)@),
                bridges_prefix_ok(b, *lh, *net, base, k as int),
                all.take(all.len() as int) == all,
                !blank(br.name@),
                !bridge_names(all.take(k as int)).contains(br.name@),
                !(br.allowed_vlans is Some && !br.vlan_aware),
                !(br.allowed_vlans matches Some(v) && !vlan_expression_ok(v@)),
                holders_ok(b, seen@),
            decreases br.ports@.len() - m,
        {
            let port = &br.ports[m];
            let ghost cv = claimed@.map_values(|c: (String, String)| c.0@);
            let mut known = false;
            let mut li: usize = 0;
            while li < net.links.len()
                invariant
                    li <= net.links@.len(),
                    known ==> link_names(*net).contains(port@),
                    !known ==> forall|q: int| 0 <= q < li ==> link_names(*net)[q] != port@,
                decreases net.links@.len() - li,
            {
                if net.links[li].name == *port {
                    assert(link_names(*net)[li as int] == port@);
                    known = true;
                }
                li = li + 1;
            }
            if !known {
                proof {
                    assert(texts(br.ports@)[m as int] == port@);
                    assert(!link_names(*net).contains(port@)) by {
                        if link_names(*net).contains(port@) {
                            let q = choose|q: int| 0 <= q < link_names(*net).len() && link_names(*net)[q] == port@;
                        }
                    }
                    assert(!bridge_ok(b, *lh, *net, all[k as int]));
                    assert forall|p: int| 0 <= p < m implies link_names(*net).contains(#[trigger] texts(br.ports@)[p]) by {
                        assert(texts(br.ports@)[p] == br.ports@[p]@);
                    }
                }
                return Err(
                    ValidationError::BridgeUnknownLink {
                        host: host_name.clone(),
                        bridge: br.name.clone(),
                        port: port.clone(),
                    },
                );
            }
            proof {
                assert(texts(br.ports@)[m as int] == port@);
                assert forall|p: int| 0 <= p < m implies link_names(*net).contains(#[trigger] texts(br.ports@)[p]) by {
                    assert(texts(br.ports@)[p] == br.ports@[p]@);
                }
                let pre = port_base + texts(br.ports@).take(m + 1);
                assert(texts(br.ports@).take(m + 1) =~= texts(br.ports@).take(m as int).push(port@));
                assert(pre =~= cv.push(port@));
                lemma_push_no_duplicates(cv, port@);
                assert(bridge_ports(all.take(k + 1)).take(pre.len() as int) =~= pre);
                assert(bridge_ports(all).take(pre.len() as int) =~= pre);
                if cv.contains(port@) {
                    lemma_dup_in_prefix(bridge_ports(all), pre);
                }
            }
            let mut q: usize = 0;
            while q < claimed.len()
                invariant
                    q <= claimed@.len(),
                    cv == claimed@.map_values(|c: (String, String)| c.0@),
                    all == net.bridges@,
                    cv.contains(port@) ==> !bridge_ports(all).no_duplicates(),
                    forall|j: int| 0 <= j < q ==> cv[j] != port@,
                    cv == port_base + texts(br.ports@).take(m as int),
                    texts(br.ports@)[m as int] == port@,
                    link_names(*net).contains(port@),
                    forall|p: int| 0 <= p < m ==> link_names(*net).contains(#[trigger] texts(br.ports@)[p]),
                    (port_base + texts(br.ports@).take(m as int)).no_duplicates(),
                    bridges_prefix_ok(b, *lh, *net, base, k as int),
                    all.take(all.len() as int) == all,
                    port_base == bridge_ports(all.take(k as int)),
                    br == &all[k as int],
                    k < all.len(),
                    m < br.ports@.len(),
                    base == seen_addrs(old(seen)@),
                    !blank(br.name@),
                    !bridge_names(all.take(k as int)).contains(br.name@),
                    !(br.allowed_vlans is Some && !br.vlan_aware),
                    !(br.allowed_vlans matches Some(v) && !vlan_expression_ok(v@)),
                    all == net.bridges@,
                    holders_ok(b, seen@),
                decreases claimed@.len() - q,
            {
                if claimed[q].0 == *port {
                    proof {
                        assert(cv[q as int] == port@);
                        assert(cv.contains(port@));
                        let whole = port_base + texts(br.ports@);
                        let pre = cv.push(port@);
                        assert(whole.take(pre.len() as int) =~= pre);
                        assert(!pre.no_duplicates()) by {
                            assert(pre[q as int] == pre[pre.len() - 1]);
                        }
                        lemma_dup_in_prefix(whole, pre);
                        assert(!bridge_ports_ok(*net, port_base, *br));
                    }
                    return Err(
                        ValidationError::LinkInTwoBridges {
                            host: host_name.clone(),
                            link: port.clone(),
                            first_bridge: claimed[q].1.clone(),
                            bridge: br.name.clone(),
                        },
                    );
                }
                q = q + 1;
            }
            proof {
                lemma_push_no_duplicates(cv, port@);
            }
            claimed.push((port.clone(), br.name.clone()));
            m = m + 1;
            proof {
                assert(texts(br.ports@).take(m as int) =~= texts(br.ports@).take(m - 1).push(port@));
                assert(claimed@.map_values(|c: (String, String)| c.0@) =~= cv.push(port@));
            }
        }
        proof {
            assert(texts(br.ports@).take(br.ports@.len() as int) =~= texts(br.ports@));
        }
        let attached = match &br.location_interface {
            Some(i) => *i == net.management_interface,
            None => false,
        };
        if attached {
            count = count + 1;
        }
        proof {
            assert(count == mgmt_count(all.take(k + 1), net.management_interface@));
        }
        let ghost before = seen_addrs(seen@);
        let att = check_bridge_attachment(b, host_name, lh, br, seen);
        if att.is_err() {
            proof {
                let pre = base + bridges_ipv4s(*lh, all.take(k + 1));
                assert(bridges_ipv4s(*lh, all.take(k + 1)) == bridges_ipv4s(*lh, all.take(k as int)) + bridge_ipv4(*lh, *br));
                assert(pre =~= before + bridge_ipv4(*lh, *br));
                if !pre.no_duplicates() {
                    let whole = base + bridges_ipv4s(*lh, all);
                    let x = bridges_ipv4s(*lh, all);
                    assert(x.take(bridges_ipv4s(*lh, all.take(k + 1)).len() as int) == bridges_ipv4s(*lh, all.take(k + 1)));
                    assert(whole.take(pre.len() as int) =~= pre);
                    lemma_dup_in_prefix(whole, pre);
                }
                if !attachment_ok(b, *lh, *br) {
                    assert(net.bridges@[k as int] == *br);
                    assert(!bridge_ok(b, *lh, *net, net.bridges@[k as int]));
                    assert(!bridges_ok(b, *lh, *net));
                } else {
                    assert(!pre.no_duplicates());
                    assert(!(base + bridges_ipv4s(*lh, all)).no_duplicates());
                    assert(!(base + bridges_ipv4s(*lh, net.bridges@)).no_duplicates());
                }
                assert(bridge_ports_ok(*net, port_base, *br)) by {
                    assert forall|p: int| 0 <= p < br.ports@.len() implies link_names(*net).contains((#[trigger] br.ports@[p])@) by {}
                }
                assert(before == base + bridges_ipv4s(*lh, all.take(k as int)));
            }
            return att;
        }
        proof {
            assert(seen_addrs(seen@) =~= base + bridges_ipv4s(*lh, all.take(k + 1)));
            assert(bridge_ok(b, *lh, *net, *br));
        }
        k = k + 1;
    }
    proof {
        assert(all.take(all.len() as int) =~= all);
    }
    if count == 0 {
        return Err(
            ValidationError::NoManagementBridge {
                host: host_name.clone(),
                interface: net.management_interface.clone(),
            },
        );
    }
    if count > 1 {
        return Err(
            ValidationError::MultipleManagementBridges {
                host: host_name.clone(),
                interface: net.management_interface.clone(),
            },
        );
    }
    if !contains_key(&lh.interfaces, net.management_interface.as_str()) {
        return Err(
            ValidationError::ManagementInterfaceUndefined {
                host: host_name.clone(),
                interface: net.management_interface.clone(),
                location: b.location.name.clone(),
            },
        );
    }
    Ok(())
}

/// Checks every host network rule.
pub fn validate_host_networks(b: &ConfigBundle) -> (r: Result<(), ValidationError>)
    requires
        b.wf(),
    ensures
        r is Ok <==> host_networks_ok(b),
        r matches Err(e) ==> host_network_error(e),
        r matches Err(e) ==> host_networks_refusal(b, e),
{
    let hosts = &b.inventory.hosts;
    let ghost all = hosts@;
    let ghost g = |e: (String, Host)| host_ipv4s(b, e);
    let mut seen: Vec<(u32, String, String)> = Vec::new();
    let mut i: usize = 0;
    proof {
        assert(all.take(0) =~= Seq::<(String, Host)>::empty());
        assert(seen_addrs(seen@) =~= all_host_ipv4s(b, all.take(0)));
    }
    while i < hosts.len()
        invariant
            b.wf(),
            hosts == &b.inventory.hosts,
            all == hosts@,
            i <= all.len(),
            g == |e: (String, Host)| host_ipv4s(b, e),
            forall|j: int|
                0 <= j < i ==> match active_profile((#[trigger] all[j]).1) {
                    Some(net) => host_network_ok(b, all[j].0@, net),
                    None => true,
                },
            seen_addrs(seen@) == all_host_ipv4s(b, all.take(i as int)),
            all_host_ipv4s(b, all.take(i as int)).no_duplicates(),
            holders_ok(b, seen@),
        decreases all.len() - i,
    {
        let name = &hosts[i].0;
        let host = &hosts[i].1;
        proof {
            lemma_flat_map_step(all, g, i as int);
            lemma_flat_map_prefix(all, g, (i + 1) as int);
            assert(hosts_prefix_ok(b, i as int));
        }
        let active = host.enabled && host.network.is_some();
        if !active {
            proof {
                assert(host_ipv4s(b, all[i as int]) =~= Seq::<u32>::empty());
                assert(all_host_ipv4s(b, all.take(i + 1)) =~= all_host_ipv4s(b, all.take(i as int)));
            }
            i = i + 1;
            continue;
        }
        let net = host.network.as_ref().unwrap();
        let l = find(&b.location.hosts, name.as_str());
        let li = match l {
            None => {
                return Err(
                    ValidationError::HostNetworkNotAttached {
                        host: name.clone(),
                        location: b.location.name.clone(),
                    },
                );
            },
            Some(li) => li,
        };
        let lh = &b.location.hosts[li].1;
        assert(unique_keys(b.location.hosts@[li as int].1.interfaces@));
        assert(lookup(b.location.hosts@, name@) == Some(*lh));
        match check_links(name, net) {
            Ok(()) => {},
            Err(e) => {
                proof {
                    assert(lookup(b.location.hosts@, name@) == Some(*lh));
                }
                return Err(e);
            },
        }
        let ghost before = seen_addrs(seen@);
        let res = check_bridges(b, name, lh, net, &mut seen);
        if res.is_err() {
            proof {
                assert(lookup(b.location.hosts@, name@) == Some(*lh));
                let pre = all_host_ipv4s(b, all.take(i + 1));
                assert(pre =~= before + bridges_ipv4s(*lh, net.bridges@));
                if !pre.no_duplicates() {
                    lemma_dup_in_prefix(all_host_ipv4s(b, all), pre);
                }
            }
            return res;
        }
        i = i + 1;
    }
    proof {
        assert(all.take(all.len() as int) =~= all);
    }
    Ok(())
}

} // verus!
