//! Operating-system network plans of guests.

use vstd::prelude::*;

use super::PlanError;
use crate::model::{
    ConfigBundle, HostOsIpv4Mode, HostOsIpv6Mode, HostOsNetworkProvider, HostOsNetworkRenderer, Ipv6Mode,
};
use crate::net::{ipv4_contains, v4_contains};
use crate::table::{find, lookup};
use crate::text::{blank, is_blank, owned};

verus! {

pub struct ResolvedOsNetworkPlan {
    pub location: String,
    pub host: String,
    pub provider: HostOsNetworkProvider,
    pub renderer: HostOsNetworkRenderer,
    pub interface: String,
    pub ipv4_mode: HostOsIpv4Mode,
    pub expected_ipv4: Option<u32>,
    pub ipv6_mode: HostOsIpv6Mode,
}

/// When an OS network plan exists for `host`: the host is known, enabled and
/// has an OS network profile with a non-blank interface; a guest of that name
/// sits on an interface of its parent at the location; the guest address lies
/// inside that interface's segment; and router-advertised IPv6 is asked for
/// only where the location enables IPv6.
pub open spec fn os_network_ok(b: &ConfigBundle, host: Seq<char>) -> bool {
    match lookup(b.inventory.hosts@, host) {
        None => false,
        Some(h) => h.enabled && match h.os_network {
            None => false,
            Some(net) => !blank(net.interface@) && match lookup(b.guests.guests@, host) {
                None => false,
                Some(g) => match lookup(b.location.hosts@, g.host@) {
                    None => false,
                    Some(parent) => match lookup(parent.interfaces@, g.interface@) {
                        None => false,
                        Some(iface) => match lookup(b.location.segments@, iface.segment@) {
                            None => false,
                            Some(seg) => v4_contains(seg.ipv4_cidr, g.ipv4) && !(net.ipv6_mode
                                == HostOsIpv6Mode::RouterAdvertised && b.location.ipv6.mode
                                == Ipv6Mode::Disabled),
                        },
                    },
                },
            },
        },
    }
}

/// Why the OS network plan of `host` is refused, checked in the order of
/// `os_network_ok`: the host, its profile and interface, its guest
/// declaration, the parent, interface and segment the guest sits on, the
/// guest address, and router-advertised IPv6.
pub open spec fn os_network_refusal(b: &ConfigBundle, host: Seq<char>, err: PlanError) -> bool {
    match lookup(b.inventory.hosts@, host) {
        None => err matches PlanError::UnknownHost { host: h } && h@ == host,
        Some(h) => if !h.enabled {
            err matches PlanError::HostDisabled { host: x } && x@ == host
        } else {
            match h.os_network {
                None => err matches PlanError::NoOsNetworkProfile { host: x } && x@ == host,
                Some(net) => if blank(net.interface@) {
                    err matches PlanError::EmptyOsNetworkInterface { host: x } && x@ == host
                } else {
                    match lookup(b.guests.guests@, host) {
                        None => err matches PlanError::NoGuestDeclaration { host: x } && x@ == host,
                        Some(g) => match lookup(b.location.hosts@, g.host@) {
                            None => err matches PlanError::GuestParentNotAttached { host: x, parent, location }
                                && x@ == host && parent@ == g.host@ && location@ == b.location.name@,
                            Some(parent) => match lookup(parent.interfaces@, g.interface@) {
                                None => err matches PlanError::GuestInterfaceUnknown { host: x, parent: p, interface }
                                    && x@ == host && p@ == g.host@ && interface@ == g.interface@,
                                Some(iface) => match lookup(b.location.segments@, iface.segment@) {
                                    None => err matches PlanError::GuestSegmentUnknown { host: x, segment }
                                        && x@ == host && segment@ == iface.segment@,
                                    Some(seg) => if !v4_contains(seg.ipv4_cidr, g.ipv4) {
                                        err matches PlanError::ExpectedAddressOutside { host: x, address, segment, cidr }
                                            && x@ == host && address == g.ipv4 && segment@ == iface.segment@ && cidr == seg.ipv4_cidr
                                    } else {
                                        err matches PlanError::RouterAdvertisedWithoutIpv6 { host: x, location }
                                            && x@ == host && location@ == b.location.name@
                                    },
                                },
                            },
                        },
                    }
                },
            }
        },
    }
}

/// Resolves the OS network plan of a guest host: its profile, and the guest
/// address it is expected to obtain by DHCP.
pub fn resolve_os_network_plan(b: &ConfigBundle, host_name: &str) -> (r: Result<ResolvedOsNetworkPlan, PlanError>)
    requires
        b.wf(),
    ensures
        r is Ok <==> os_network_ok(b, host_name@),
        r matches Err(err) ==> os_network_refusal(b, host_name@, err),
        lookup(b.inventory.hosts@, host_name@) is None ==> (r matches Err(PlanError::UnknownHost { host }) && host@ == host_name@),
        lookup(b.inventory.hosts@, host_name@) matches Some(h) ==> (!h.enabled ==> (r matches Err(PlanError::HostDisabled { host }) && host@ == host_name@)),
        lookup(b.inventory.hosts@, host_name@) matches Some(h) ==> (h.enabled && h.os_network is None ==> (r matches Err(PlanError::NoOsNetworkProfile { host }) && host@ == host_name@)),
        r matches Ok(p) ==> {
            let net = lookup(b.inventory.hosts@, host_name@)->0.os_network->0;
            let g = lookup(b.guests.guests@, host_name@)->0;
            &&& p.location@ == b.location.name@
            &&& p.host@ == host_name@
            &&& p.provider == net.provider
            &&& p.renderer == net.renderer
            &&& p.interface@ == net.interface@
            &&& p.ipv4_mode == net.ipv4_mode
            &&& p.expected_ipv4 == Some(g.ipv4)
            &&& p.ipv6_mode == net.ipv6_mode
        },
{
    let hi = match find(&b.inventory.hosts, host_name) {
        None => {
            return Err(PlanError::UnknownHost { host: owned(host_name) });
        },
        Some(i) => i,
    };
    let host = &b.inventory.hosts[hi].1;
    if !host.enabled {
        return Err(PlanError::HostDisabled { host: owned(host_name) });
    }
    let net = match &host.os_network {
        None => {
            return Err(PlanError::NoOsNetworkProfile { host: owned(host_name) });
        },
        Some(n) => n,
    };
    if is_blank(net.interface.as_str()) {
        return Err(PlanError::EmptyOsNetworkInterface { host: owned(host_name) });
    }
    let gi = match find(&b.guests.guests, host_name) {
        None => {
            return Err(PlanError::NoGuestDeclaration { host: owned(host_name) });
        },
        Some(i) => i,
    };
    let guest = &b.guests.guests[gi].1;
    let pi = match find(&b.location.hosts, guest.host.as_str()) {
        None => {
            return Err(
                PlanError::GuestParentNotAttached {
                    host: owned(host_name),
                    parent: guest.host.clone(),
                    location: b.location.name.clone(),
                },
            );
        },
        Some(i) => i,
    };
    let parent = &b.location.hosts[pi].1;
    assert(crate::table::unique_keys(b.location.hosts@[pi as int].1.interfaces@));
    let ii = match find(&parent.interfaces, guest.interface.as_str()) {
        None => {
            return Err(
                PlanError::GuestInterfaceUnknown {
                    host: owned(host_name),
                    parent: guest.host.clone(),
                    interface: guest.interface.clone(),
                },
            );
        },
        Some(i) => i,
    };
    let iface = &parent.interfaces[ii].1;
    let si = match find(&b.location.segments, iface.segment.as_str()) {
        None => {
            return Err(PlanError::GuestSegmentUnknown { host: owned(host_name), segment: iface.segment.clone() });
        },
        Some(i) => i,
    };
    let segment = &b.location.segments[si].1;
    assert(b.location.segments@[si as int].1.ipv4_cidr.wf());
    if !ipv4_contains(segment.ipv4_cidr, guest.ipv4) {
        return Err(
            PlanError::ExpectedAddressOutside {
                host: owned(host_name),
                address: guest.ipv4,
                segment: iface.segment.clone(),
                cidr: segment.ipv4_cidr,
            },
        );
    }
    if net.ipv6_mode == HostOsIpv6Mode::RouterAdvertised && b.location.ipv6.mode == Ipv6Mode::Disabled {
        return Err(
            PlanError::RouterAdvertisedWithoutIpv6 { host: owned(host_name), location: b.location.name.clone() },
        );
    }
    Ok(
        ResolvedOsNetworkPlan {
            location: b.location.name.clone(),
            host: owned(host_name),
            provider: net.provider,
            renderer: net.renderer,
            interface: net.interface.clone(),
            ipv4_mode: net.ipv4_mode,
            expected_ipv4: match net.ipv4_mode {
                HostOsIpv4Mode::Dhcp => Some(guest.ipv4),
            },
            ipv6_mode: net.ipv6_mode,
        },
    )
}

} // verus!
