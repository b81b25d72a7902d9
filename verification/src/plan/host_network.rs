//! The host-side network plan of a hypervisor: links, bridges and resolvers.

use vstd::prelude::*;

use crate::model::{
    ConfigBundle, HostNetworkBridge, HostNetworkConfig, HostNetworkProvider, InterfaceIpv6Mode,
    Ipv6Mode, LocationInterface,
};
use crate::net::{ipv6_cidr_display, ipv6_cidr_text, Ipv4Cidr};
use crate::plan::address::{host_ula, host_ula_of, host_ula_refusal};
use crate::plan::dns::{
    dns_plan_ok, dns_plan_requires, dns_refusal, dns_service_of, ingress_ipv4_of, resolve_dns_plan,
};
use crate::plan::PlanError;
use crate::table::{copy_opt, copy_strings, find, has_key, lookup, opt_text, texts, unique_keys};
use crate::text::{concat, owned, push_char, str_eq};
use crate::validate::host_network::mgmt_count;

verus! {

/// How a bridge takes part in IPv6.
#[derive(Clone, Copy, Debug, PartialEq, Eq, Structural)]
pub enum ResolvedHostIpv6Mode {
    Disabled,
    Slaac,
    Static,
}

impl ResolvedHostIpv6Mode {
    pub fn as_str(self) -> (r: &'static str)
        ensures
            self == ResolvedHostIpv6Mode::Disabled ==> r@ == "disabled"@,
            self == ResolvedHostIpv6Mode::Slaac ==> r@ == "slaac"@,
            self == ResolvedHostIpv6Mode::Static ==> r@ == "static"@,
    {
        match self {
            ResolvedHostIpv6Mode::Disabled => "disabled",
            ResolvedHostIpv6Mode::Slaac => "slaac",
            ResolvedHostIpv6Mode::Static => "static",
        }
    }
}

/// The name under which a host network provider is shown.
pub fn provider_name(provider: HostNetworkProvider) -> (r: &'static str)
    ensures
        r@ == "proxmox-ifupdown2"@,
{
    match provider {
        HostNetworkProvider::ProxmoxIfupdown2 => "proxmox-ifupdown2",
    }
}

#[derive(Debug)]
pub struct ResolvedHostLink {
    pub name: String,
    pub kind: String,
}

#[derive(Debug)]
pub struct ResolvedHostBridge {
    pub name: String,
    pub ports: Vec<String>,
    pub location_interface: Option<String>,
    pub segment: Option<String>,
    pub ipv4: Option<Ipv4Cidr>,
    pub ipv4_gateway: Option<u32>,
    pub ipv6_mode: ResolvedHostIpv6Mode,
    pub public_ipv6_prefix: Option<String>,
    pub ula_address: Option<u128>,
    pub vlan_aware: bool,
    pub allowed_vlans: Option<String>,
    pub stp: bool,
    pub forward_delay: u32,
    pub comment: Option<String>,
}

/// The host network plan of one host.
#[derive(Debug)]
pub struct ResolvedHostNetworkPlan {
    pub location: String,
    pub host: String,
    pub fqdn: String,
    pub provider: HostNetworkProvider,
    pub management_interface: String,
    pub preserve_includes: bool,
    pub links: Vec<ResolvedHostLink>,
    pub bridges: Vec<ResolvedHostBridge>,
    pub dns_servers: Vec<u32>,
    pub search_domains: Vec<String>,
}

/// Interface `i` of host `host` at the location.
pub open spec fn location_interface_of(b: &ConfigBundle, host: Seq<char>, i: Seq<char>) -> Option<LocationInterface> {
    match lookup(b.location.hosts@, host) {
        None => None,
        Some(lh) => lookup(lh.interfaces@, i),
    }
}

pub open spec fn ipv6_mode_of(m: Option<InterfaceIpv6Mode>) -> ResolvedHostIpv6Mode {
    match m {
        Some(InterfaceIpv6Mode::Slaac) => ResolvedHostIpv6Mode::Slaac,
        Some(InterfaceIpv6Mode::Static) => ResolvedHostIpv6Mode::Static,
        _ => ResolvedHostIpv6Mode::Disabled,
    }
}

/// A bridge resolves: its location interface, if it has one, exists with a
/// known segment, asks for SLAAC only where the location has IPv6, and has a
/// ULA address where it has a ULA interface ID.
pub open spec fn bridge_ok(b: &ConfigBundle, host: Seq<char>, br: HostNetworkBridge) -> bool {
    match br.location_interface {
        None => true,
        Some(i) => match location_interface_of(b, host, i@) {
            None => false,
            Some(iface) => {
                &&& has_key(b.location.segments@, iface.segment@)
                &&& !(ipv6_mode_of(iface.ipv6_mode) == ResolvedHostIpv6Mode::Slaac && b.location.ipv6.mode == Ipv6Mode::Disabled)
                &&& (iface.ula_interface_id is Some ==> host_ula_of(b, host, i@) is Some)
            },
        },
    }
}

/// `r` is bridge `br` of host `host` resolved at the location: its own
/// settings, and for a bridge on a location interface, that interface's
/// segment, address (with the segment's prefix length), gateway, IPv6 mode,
/// the location's public prefix and the interface's ULA address.
pub open spec fn bridge_resolved(b: &ConfigBundle, host: Seq<char>, br: HostNetworkBridge, r: ResolvedHostBridge) -> bool {
    &&& r.name@ == br.name@
    &&& texts(r.ports@) == texts(br.ports@)
    &&& opt_text(r.location_interface) == opt_text(br.location_interface)
    &&& r.vlan_aware == br.vlan_aware
    &&& opt_text(r.allowed_vlans) == opt_text(br.allowed_vlans)
    &&& r.stp == br.stp
    &&& r.forward_delay == br.forward_delay
    &&& opt_text(r.comment) == opt_text(br.comment)
    &&& match br.location_interface {
        None => {
            &&& r.segment is None
            &&& r.ipv4 is None
            &&& r.ipv4_gateway is None
            &&& r.ipv6_mode == ResolvedHostIpv6Mode::Disabled
            &&& r.public_ipv6_prefix is None
            &&& r.ula_address is None
        },
        Some(i) => {
            let iface = location_interface_of(b, host, i@)->0;
            let seg = lookup(b.location.segments@, iface.segment@)->0;
            &&& opt_text(r.segment) == Some(iface.segment@)
            &&& r.ipv4_gateway == Some(seg.ipv4_gateway)
            &&& r.ipv4 == match iface.ipv4 {
                Some(a) => Some(Ipv4Cidr { addr: a, prefix_len: seg.ipv4_cidr.prefix_len }),
                None => None,
            }
            &&& r.ipv6_mode == ipv6_mode_of(iface.ipv6_mode)
            &&& opt_text(r.public_ipv6_prefix) == match b.location.ipv6.prefix {
                Some(p) => Some(ipv6_cidr_display(p)),
                None => None,
            }
            &&& r.ula_address == if iface.ula_interface_id is Some {
                host_ula_of(b, host, i@)
            } else {
                None
            }
        },
    }
}

/// The host network plan of `host` resolves: the host is known, enabled,
/// has a host network profile and is attached at the location; every bridge
/// resolves; exactly one bridge is on the management interface; and the DNS
/// plan resolves.
pub open spec fn host_network_ok(b: &ConfigBundle, host: Seq<char>) -> bool {
    match lookup(b.inventory.hosts@, host) {
        None => false,
        Some(h) => {
            &&& h.enabled
            &&& h.network matches Some(net)
            &&& has_key(b.location.hosts@, host)
            &&& forall|i: int| 0 <= i < net.bridges@.len() ==> bridge_ok(b, host, #[trigger] net.bridges@[i])
            &&& mgmt_count(net.bridges@, net.management_interface@) == 1
            &&& dns_plan_ok(b)
        },
    }
}

/// Why bridge `br` of `host` is refused, checked in this order: the host is
/// not attached, lacks the bridge's interface, the interface's segment is
/// unknown, SLAAC without IPv6 at the location, and the ULA address.
pub open spec fn bridge_refusal(b: &ConfigBundle, host: Seq<char>, br: HostNetworkBridge, err: PlanError) -> bool {
    let i = br.location_interface->0@;
    match lookup(b.location.hosts@, host) {
        None => err matches PlanError::HostNotAttached { host: h, location } && h@ == host && location@ == b.location.name@,
        Some(lh) => match lookup(lh.interfaces@, i) {
            None => err matches PlanError::NoInterface { host: h, interface } && h@ == host && interface@ == i,
            Some(iface) => if !has_key(b.location.segments@, iface.segment@) {
                err matches PlanError::InterfaceSegmentUnknown { host: h, interface, segment } && h@ == host && interface@ == i && segment@ == iface.segment@
            } else if ipv6_mode_of(iface.ipv6_mode) == ResolvedHostIpv6Mode::Slaac && b.location.ipv6.mode == Ipv6Mode::Disabled {
                err matches PlanError::SlaacWithoutIpv6 { host: h, interface, location } && h@ == host && interface@ == i && location@ == b.location.name@
            } else {
                host_ula_refusal(b, host, i, err)
            },
        },
    }
}

/// Why the host network plan of `host` is refused, checked in this order:
/// the host, its profile, its attachment, the first bridge refused, no or
/// several bridges on the management interface, and then the DNS plan's own
/// refusal.
pub open spec fn host_network_refusal(b: &ConfigBundle, host: Seq<char>, err: PlanError) -> bool {
    match lookup(b.inventory.hosts@, host) {
        None => err matches PlanError::UnknownHost { host: h } && h@ == host,
        Some(h) => if !h.enabled {
            err matches PlanError::HostDisabled { host: x } && x@ == host
        } else {
            match h.network {
                None => err matches PlanError::NoHostNetworkProfile { host: x } && x@ == host,
                Some(net) => if !has_key(b.location.hosts@, host) {
                    err matches PlanError::HostNotAttached { host: x, location } && x@ == host && location@ == b.location.name@
                } else if exists|k: int| 0 <= k < net.bridges@.len() && !bridge_ok(b, host, #[trigger] net.bridges@[k]) {
                    exists|k: int| 0 <= k < net.bridges@.len() && !bridge_ok(b, host, #[trigger] net.bridges@[k])
                        && (forall|k2: int| 0 <= k2 < k ==> bridge_ok(b, host, #[trigger] net.bridges@[k2]))
                        && bridge_refusal(b, host, net.bridges@[k], err)
                } else if mgmt_count(net.bridges@, net.management_interface@) == 0 {
                    err matches PlanError::NoManagementBridge { host: x, interface } && x@ == host && interface@ == net.management_interface@
                } else if mgmt_count(net.bridges@, net.management_interface@) > 1 {
                    err matches PlanError::MultipleManagementBridges { host: x, interface } && x@ == host && interface@ == net.management_interface@
                } else {
                    dns_refusal(b, err)
                },
            }
        },
    }
}

/// Every check of the host network plan of `host` that comes before the
/// DNS plan passes: the host is known, enabled, has a profile, is attached,
/// its bridges resolve and exactly one is on the management interface.
pub open spec fn host_network_reaches_dns(b: &ConfigBundle, host: Seq<char>) -> bool {
    match lookup(b.inventory.hosts@, host) {
        None => false,
        Some(h) => {
            &&& h.enabled
            &&& h.network matches Some(net)
            &&& has_key(b.location.hosts@, host)
            &&& forall|i: int| 0 <= i < net.bridges@.len() ==> bridge_ok(b, host, #[trigger] net.bridges@[i])
            &&& mgmt_count(net.bridges@, net.management_interface@) == 1
        },
    }
}

/// `p` is the host network plan of `host`.
pub open spec fn host_network_plan_of(b: &ConfigBundle, host: Seq<char>, p: ResolvedHostNetworkPlan) -> bool {
    let net = lookup(b.inventory.hosts@, host)->0.network->0;
    &&& p.location@ == b.location.name@
    &&& p.host@ == host
    &&& p.fqdn@ == host + seq!['.'] + b.inventory.domains.primary@
    &&& p.provider == net.provider
    &&& p.management_interface@ == net.management_interface@
    &&& p.preserve_includes == net.preserve_includes
    &&& p.links@.len() == net.links@.len()
    &&& forall|i: int| 0 <= i < p.links@.len() ==> (#[trigger] p.links@[i]).name@ == net.links@[i].name@ && p.links@[i].kind@ == match net.links@[i].kind {
        crate::model::HostNetworkLinkKind::Ethernet => "ethernet"@,
        crate::model::HostNetworkLinkKind::Wifi => "wifi"@,
    }
    &&& p.bridges@.len() == net.bridges@.len()
    &&& forall|i: int| 0 <= i < p.bridges@.len() ==> bridge_resolved(b, host, net.bridges@[i], #[trigger] p.bridges@[i])
    &&& p.dns_servers@ == seq![ingress_ipv4_of(b, dns_service_of(b)->0)->0]
    &&& texts(p.search_domains@) == seq![b.inventory.domains.primary@]
}

/// Resolves one bridge of host `host` at the location.
fn resolve_bridge(b: &ConfigBundle, host: &str, br: &HostNetworkBridge) -> (r: Result<ResolvedHostBridge, PlanError>)
    requires
        b.wf(),
    ensures
        r is Ok <==> bridge_ok(b, host@, *br),
        r matches Ok(x) ==> bridge_resolved(b, host@, *br, x),
        r matches Err(err) ==> br.location_interface is Some && bridge_refusal(b, host@, *br, err),
{
    let i = match &br.location_interface {
        None => {
            return Ok(ResolvedHostBridge {
                name: owned(br.name.as_str()),
                ports: copy_strings(&br.ports),
                location_interface: None,
                segment: None,
                ipv4: None,
                ipv4_gateway: None,
                ipv6_mode: ResolvedHostIpv6Mode::Disabled,
                public_ipv6_prefix: None,
                ula_address: None,
                vlan_aware: br.vlan_aware,
                allowed_vlans: copy_opt(&br.allowed_vlans),
                stp: br.stp,
                forward_delay: br.forward_delay,
                comment: copy_opt(&br.comment),
            });
        },
        Some(i) => i.as_str(),
    };
    let hi = match find(&b.location.hosts, host) {
        None => {
            return Err(PlanError::HostNotAttached { host: owned(host), location: owned(b.location.name.as_str()) });
        },
        Some(hi) => hi,
    };
    assert(unique_keys(b.location.hosts@[hi as int].1.interfaces@));
    let ii = match find(&b.location.hosts[hi].1.interfaces, i) {
        None => {
            return Err(PlanError::NoInterface { host: owned(host), interface: owned(i) });
        },
        Some(ii) => ii,
    };
    let iface = &b.location.hosts[hi].1.interfaces[ii].1;
    let si = match find(&b.location.segments, iface.segment.as_str()) {
        None => {
            return Err(PlanError::InterfaceSegmentUnknown { host: owned(host), interface: owned(i), segment: owned(iface.segment.as_str()) });
        },
        Some(si) => si,
    };
    let seg = &b.location.segments[si].1;
    let ipv4 = match iface.ipv4 {
        Some(a) => Some(Ipv4Cidr { addr: a, prefix_len: seg.ipv4_cidr.prefix_len }),
        None => None,
    };
    let mode = match iface.ipv6_mode {
        Some(InterfaceIpv6Mode::Slaac) => ResolvedHostIpv6Mode::Slaac,
        Some(InterfaceIpv6Mode::Static) => ResolvedHostIpv6Mode::Static,
        _ => ResolvedHostIpv6Mode::Disabled,
    };
    if mode == ResolvedHostIpv6Mode::Slaac && b.location.ipv6.mode == Ipv6Mode::Disabled {
        return Err(PlanError::SlaacWithoutIpv6 { host: owned(host), interface: owned(i), location: owned(b.location.name.as_str()) });
    }
    let public = match b.location.ipv6.prefix {
        Some(p) => Some(ipv6_cidr_text(p)),
        None => None,
    };
    let ula = match &iface.ula_interface_id {
        Some(_) => Some(host_ula(b, host, i)?),
        None => None,
    };
    Ok(ResolvedHostBridge {
        name: owned(br.name.as_str()),
        ports: copy_strings(&br.ports),
        location_interface: Some(owned(i)),
        segment: Some(owned(iface.segment.as_str())),
        ipv4,
        ipv4_gateway: Some(seg.ipv4_gateway),
        ipv6_mode: mode,
        public_ipv6_prefix: public,
        ula_address: ula,
        vlan_aware: br.vlan_aware,
        allowed_vlans: copy_opt(&br.allowed_vlans),
        stp: br.stp,
        forward_delay: br.forward_delay,
        comment: copy_opt(&br.comment),
    })
}

/// Resolves the host network plan of `host_name`: its links and bridges
/// with their location addresses, and the DNS server and search domain it
/// uses.
pub fn resolve_host_network_plan(b: &ConfigBundle, host_name: &str) -> (r: Result<ResolvedHostNetworkPlan, PlanError>)
    requires
        b.wf(),
        host_network_reaches_dns(b, host_name@) ==> dns_plan_requires(b),
    ensures
        r is Ok <==> host_network_ok(b, host_name@),
        lookup(b.inventory.hosts@, host_name@) is None ==> (r matches Err(PlanError::UnknownHost { host }) && host@ == host_name@),
        lookup(b.inventory.hosts@, host_name@) matches Some(h) ==> (!h.enabled ==> (r matches Err(PlanError::HostDisabled { host }) && host@ == host_name@)),
        lookup(b.inventory.hosts@, host_name@) matches Some(h) ==> (h.enabled && h.network is None ==> (r matches Err(PlanError::NoHostNetworkProfile { host }) && host@ == host_name@)),
        lookup(b.inventory.hosts@, host_name@) matches Some(h) ==> (h.enabled && h.network is Some && !has_key(b.location.hosts@, host_name@) ==> (r matches Err(PlanError::HostNotAttached { host, .. }) && host@ == host_name@)),
        r matches Ok(p) ==> host_network_plan_of(b, host_name@, p),
        r matches Err(err) ==> host_network_refusal(b, host_name@, err),
{
    let hi = match find(&b.inventory.hosts, host_name) {
        None => {
            return Err(PlanError::UnknownHost { host: owned(host_name) });
        },
        Some(hi) => hi,
    };
    let host = &b.inventory.hosts[hi].1;
    if !host.enabled {
        return Err(PlanError::HostDisabled { host: owned(host_name) });
    }
    let network = match &host.network {
        None => {
            return Err(PlanError::NoHostNetworkProfile { host: owned(host_name) });
        },
        Some(n) => n,
    };
    if !crate::table::contains_key(&b.location.hosts, host_name) {
        return Err(PlanError::HostNotAttached { host: owned(host_name), location: owned(b.location.name.as_str()) });
    }
    let ghost net = *network;
    assert(lookup(b.inventory.hosts@, host_name@) matches Some(h) && h.network == Some(net));
    let mut links: Vec<ResolvedHostLink> = Vec::new();
    let mut k: usize = 0;
    while k < network.links.len()
        invariant
            net == *network,
            k <= net.links@.len(),
            links@.len() == k,
            forall|i: int| 0 <= i < k ==> (#[trigger] links@[i]).name@ == net.links@[i].name@ && links@[i].kind@ == match net.links@[i].kind {
                crate::model::HostNetworkLinkKind::Ethernet => "ethernet"@,
                crate::model::HostNetworkLinkKind::Wifi => "wifi"@,
            },
        decreases net.links@.len() - k,
    {
        let link = &network.links[k];
        links.push(ResolvedHostLink { name: owned(link.name.as_str()), kind: owned(link.kind.as_str()) });
        k = k + 1;
    }
    let mut count: usize = 0;
    let mut bridges: Vec<ResolvedHostBridge> = Vec::new();
    let mut k: usize = 0;
    while k < network.bridges.len()
        invariant
            b.wf(),
            net == *network,
            lookup(b.inventory.hosts@, host_name@) matches Some(h) && h.network == Some(net) && h.enabled,
            has_key(b.location.hosts@, host_name@),
            k <= net.bridges@.len(),
            count == mgmt_count(net.bridges@.take(k as int), net.management_interface@),
            count <= k,
            bridges@.len() == k,
            forall|i: int| 0 <= i < k ==> bridge_ok(b, host_name@, #[trigger] net.bridges@[i]),
            forall|i: int| 0 <= i < k ==> bridge_resolved(b, host_name@, net.bridges@[i], #[trigger] bridges@[i]),
        decreases net.bridges@.len() - k,
    {
        let br = &network.bridges[k];
        assert(net.bridges@.take(k + 1).drop_last() =~= net.bridges@.take(k as int));
        match &br.location_interface {
            Some(i) => {
                if str_eq(i.as_str(), network.management_interface.as_str()) {
                    count = count + 1;
                }
            },
            None => {},
        }
        let resolved = match resolve_bridge(b, host_name, br) {
            Ok(x) => x,
            Err(err) => {
                proof {
                    assert(!bridge_ok(b, host_name@, net.bridges@[k as int]));
                }
                return Err(err);
            },
        };
        bridges.push(resolved);
        k = k + 1;
    }
    assert(net.bridges@.take(net.bridges@.len() as int) =~= net.bridges@);
    if count == 0 {
        return Err(PlanError::NoManagementBridge { host: owned(host_name), interface: owned(network.management_interface.as_str()) });
    }
    if count > 1 {
        return Err(PlanError::MultipleManagementBridges { host: owned(host_name), interface: owned(network.management_interface.as_str()) });
    }
    let dns = match resolve_dns_plan(b) {
        Ok(d) => d,
        Err(e) => {
            return Err(e);
        },
    };
    let mut fqdn = owned(host_name);
    push_char(&mut fqdn, '.');
    let fqdn = concat(fqdn.as_str(), b.inventory.domains.primary.as_str());
    assert(fqdn@ =~= host_name@ + seq!['.'] + b.inventory.domains.primary@);
    let mut dns_servers: Vec<u32> = Vec::new();
    dns_servers.push(dns.ingress_ipv4);
    let mut search_domains: Vec<String> = Vec::new();
    search_domains.push(owned(b.inventory.domains.primary.as_str()));
    assert(texts(search_domains@) =~= seq![b.inventory.domains.primary@]);
    Ok(ResolvedHostNetworkPlan {
        location: owned(b.location.name.as_str()),
        host: owned(host_name),
        fqdn,
        provider: network.provider,
        management_interface: owned(network.management_interface.as_str()),
        preserve_includes: network.preserve_includes,
        links,
        bridges,
        dns_servers,
        search_domains,
    })
}

} // verus!
