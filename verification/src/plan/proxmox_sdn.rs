//! Proxmox SDN zones, VNets and subnets of a hypervisor.

use vstd::prelude::*;

use crate::model::{
    ConfigBundle, ProxmoxSdnDhcp, ProxmoxSdnIpam, ProxmoxSdnSubnet, ProxmoxSdnVnet, ProxmoxSdnZone,
    ProxmoxSdnZoneKind,
};
use crate::net::{ipv4_contains, ipv4_display, ipv4_network, ipv4_text, v4_contains, v4_network, Ipv4Cidr};
use crate::plan::PlanError;
use crate::table::{copy_opt, find, lookup, opt_text};
use crate::text::{concat, decimal, decimal_text, owned, push_char, str_eq};

verus! {

#[derive(Debug)]
pub struct ResolvedProxmoxSdnZone {
    pub name: String,
    pub kind: ProxmoxSdnZoneKind,
    pub ipam: ProxmoxSdnIpam,
    pub dhcp: ProxmoxSdnDhcp,
}

#[derive(Debug)]
pub struct ResolvedProxmoxSdnSubnet {
    pub id: String,
    pub cidr: Ipv4Cidr,
    pub gateway: u32,
    pub dhcp_start: u32,
    pub dhcp_end: u32,
    pub snat: bool,
}

#[derive(Debug)]
pub struct ResolvedProxmoxSdnVnet {
    pub name: String,
    pub zone: String,
    pub alias: Option<String>,
    pub subnets: Vec<ResolvedProxmoxSdnSubnet>,
}

/// The SDN plan of one hypervisor.
#[derive(Debug)]
pub struct ResolvedProxmoxSdnPlan {
    pub location: String,
    pub host: String,
    pub zones: Vec<ResolvedProxmoxSdnZone>,
    pub vnets: Vec<ResolvedProxmoxSdnVnet>,
}

/// The SDN zones on `host`, in table order.
pub open spec fn host_zones(zs: Seq<(String, ProxmoxSdnZone)>, host: Seq<char>) -> Seq<(String, ProxmoxSdnZone)>
    decreases zs.len(),
{
    if zs.len() == 0 {
        Seq::empty()
    } else if zs.last().1.host@ == host {
        host_zones(zs.drop_last(), host).push(zs.last())
    } else {
        host_zones(zs.drop_last(), host)
    }
}

/// Some SDN zone on `host` is named `z`.
pub open spec fn zone_on_host(b: &ConfigBundle, host: Seq<char>, z: Seq<char>) -> bool {
    exists|i: int| 0 <= i < b.proxmox_sdn.zones@.len() && (#[trigger] b.proxmox_sdn.zones@[i]).0@ == z && b.proxmox_sdn.zones@[i].1.host@ == host
}

/// The VNets in zones on `host`, in table order.
pub open spec fn host_vnets(b: &ConfigBundle, vs: Seq<(String, ProxmoxSdnVnet)>, host: Seq<char>) -> Seq<(String, ProxmoxSdnVnet)>
    decreases vs.len(),
{
    if vs.len() == 0 {
        Seq::empty()
    } else if zone_on_host(b, host, vs.last().1.zone@) {
        host_vnets(b, vs.drop_last(), host).push(vs.last())
    } else {
        host_vnets(b, vs.drop_last(), host)
    }
}

/// A subnet is consistent: gateway and DHCP range inside the network, the
/// range in order, and the gateway outside it.
pub open spec fn subnet_ok(s: ProxmoxSdnSubnet) -> bool {
    &&& v4_contains(s.cidr, s.gateway)
    &&& v4_contains(s.cidr, s.dhcp_start)
    &&& v4_contains(s.cidr, s.dhcp_end)
    &&& s.dhcp_start <= s.dhcp_end
    &&& !(s.dhcp_start <= s.gateway && s.gateway <= s.dhcp_end)
}

/// The ID Proxmox gives a subnet: zone, network address and prefix length.
pub open spec fn subnet_id_of(zone: Seq<char>, c: Ipv4Cidr) -> Seq<char> {
    zone + seq!['-'] + ipv4_display(v4_network(c)) + seq!['-'] + decimal(c.prefix_len as nat)
}

/// The SDN plan of `host` resolves: the host is known and enabled, has at
/// least one SDN zone and at least one VNet in its zones, and every subnet
/// of those VNets is consistent.
pub open spec fn sdn_ok(b: &ConfigBundle, host: Seq<char>) -> bool {
    &&& lookup(b.inventory.hosts@, host) matches Some(h) && h.enabled
    &&& host_zones(b.proxmox_sdn.zones@, host).len() > 0
    &&& host_vnets(b, b.proxmox_sdn.vnets@, host).len() > 0
    &&& forall|i: int, j: int| 0 <= i < host_vnets(b, b.proxmox_sdn.vnets@, host).len() && 0 <= j < host_vnets(b, b.proxmox_sdn.vnets@, host)[i].1.subnets@.len()
        ==> subnet_ok(#[trigger] host_vnets(b, b.proxmox_sdn.vnets@, host)[i].1.subnets@[j])
}

/// Why subnet `s` of VNet `vnet` is refused, checked in this order: the
/// gateway outside the network, the DHCP range outside it, the range
/// reversed, the gateway inside the range.
pub open spec fn subnet_refusal(vnet: Seq<char>, s: ProxmoxSdnSubnet, err: PlanError) -> bool {
    if !v4_contains(s.cidr, s.gateway) {
        err matches PlanError::SdnGatewayOutside { vnet: v, gateway, cidr } && v@ == vnet && gateway == s.gateway && cidr == s.cidr
    } else if !v4_contains(s.cidr, s.dhcp_start) || !v4_contains(s.cidr, s.dhcp_end) {
        err matches PlanError::SdnDhcpOutside { vnet: v, start, end, cidr } && v@ == vnet && start == s.dhcp_start && end == s.dhcp_end && cidr == s.cidr
    } else if s.dhcp_start > s.dhcp_end {
        err matches PlanError::SdnDhcpReversed { vnet: v, start, end } && v@ == vnet && start == s.dhcp_start && end == s.dhcp_end
    } else {
        err matches PlanError::SdnGatewayInDhcp { vnet: v, gateway } && v@ == vnet && gateway == s.gateway
    }
}

/// Subnet `c` of VNet `a` is the first inconsistent subnet of `vs`, VNet by
/// VNet and subnet by subnet.
pub open spec fn first_bad_subnet(vs: Seq<(String, ProxmoxSdnVnet)>, a: int, c: int) -> bool {
    &&& 0 <= a < vs.len()
    &&& 0 <= c < vs[a].1.subnets@.len()
    &&& !subnet_ok(vs[a].1.subnets@[c])
    &&& forall|a2: int, c2: int| 0 <= a2 < a && 0 <= c2 < vs[a2].1.subnets@.len() ==> subnet_ok(#[trigger] vs[a2].1.subnets@[c2])
    &&& forall|c2: int| 0 <= c2 < c ==> subnet_ok(#[trigger] vs[a].1.subnets@[c2])
}

/// Why the SDN plan of `host` is refused, checked in this order: the host,
/// no zone on it, no VNet in its zones, the first inconsistent subnet.
pub open spec fn sdn_refusal(b: &ConfigBundle, host: Seq<char>, err: PlanError) -> bool {
    let hv = host_vnets(b, b.proxmox_sdn.vnets@, host);
    match lookup(b.inventory.hosts@, host) {
        None => err matches PlanError::UnknownHost { host: h } && h@ == host,
        Some(h) => if !h.enabled {
            err matches PlanError::HostDisabled { host: x } && x@ == host
        } else if host_zones(b.proxmox_sdn.zones@, host).len() == 0 {
            err matches PlanError::NoSdnZones { host: x } && x@ == host
        } else if hv.len() == 0 {
            err matches PlanError::NoSdnVnets { host: x } && x@ == host
        } else {
            exists|a: int, c: int| #[trigger] first_bad_subnet(hv, a, c) && subnet_refusal(hv[a].0@, hv[a].1.subnets@[c], err)
        },
    }
}

pub open spec fn subnet_resolved(zone: Seq<char>, s: ProxmoxSdnSubnet, r: ResolvedProxmoxSdnSubnet) -> bool {
    &&& r.id@ == subnet_id_of(zone, s.cidr)
    &&& r.cidr == s.cidr
    &&& r.gateway == s.gateway
    &&& r.dhcp_start == s.dhcp_start
    &&& r.dhcp_end == s.dhcp_end
    &&& r.snat == s.snat
}

/// `p` is the SDN plan of `host`: its zones and the VNets in them, in table
/// order, with every subnet and its ID.
pub open spec fn sdn_plan_of(b: &ConfigBundle, host: Seq<char>, p: ResolvedProxmoxSdnPlan) -> bool {
    let zs = host_zones(b.proxmox_sdn.zones@, host);
    let vs = host_vnets(b, b.proxmox_sdn.vnets@, host);
    &&& p.location@ == b.location.name@
    &&& p.host@ == host
    &&& p.zones@.len() == zs.len()
    &&& forall|i: int| 0 <= i < zs.len() ==> {
        let z = #[trigger] p.zones@[i];
        z.name@ == zs[i].0@ && z.kind == zs[i].1.kind && z.ipam == zs[i].1.ipam && z.dhcp == zs[i].1.dhcp
    }
    &&& p.vnets@.len() == vs.len()
    &&& forall|i: int| 0 <= i < vs.len() ==> {
        let v = #[trigger] p.vnets@[i];
        &&& v.name@ == vs[i].0@
        &&& v.zone@ == vs[i].1.zone@
        &&& opt_text(v.alias) == opt_text(vs[i].1.alias)
        &&& v.subnets@.len() == vs[i].1.subnets@.len()
        &&& forall|j: int| 0 <= j < v.subnets@.len() ==> subnet_resolved(vs[i].1.zone@, vs[i].1.subnets@[j], #[trigger] v.subnets@[j])
    }
}

/// The Proxmox ID of a subnet in zone `zone`.
fn subnet_id(zone: &str, c: Ipv4Cidr) -> (r: String)
    requires
        c.wf(),
    ensures
        r@ == subnet_id_of(zone@, c),
{
    let mut s = owned(zone);
    push_char(&mut s, '-');
    let s = concat(s.as_str(), ipv4_text(ipv4_network(c)).as_str());
    let mut s = s;
    push_char(&mut s, '-');
    let s = concat(s.as_str(), decimal_text(c.prefix_len as u64).as_str());
    assert(s@ =~= subnet_id_of(zone@, c));
    s
}

/// Some resolved zone is named `z`.
pub open spec fn resolved_zone_named(zs: Seq<ResolvedProxmoxSdnZone>, z: Seq<char>) -> bool {
    exists|k: int| 0 <= k < zs.len() && #[trigger] zs[k].name@ == z
}

/// One of the first `i` SDN zones is named `z` and on `host`.
pub open spec fn zone_in_prefix(zs: Seq<(String, ProxmoxSdnZone)>, i: int, host: Seq<char>, z: Seq<char>) -> bool {
    exists|m: int| 0 <= m < i && (#[trigger] zs[m]).0@ == z && zs[m].1.host@ == host
}

proof fn lemma_host_vnets_prefix(b: &ConfigBundle, s: Seq<(String, ProxmoxSdnVnet)>, m: int, h: Seq<char>)
    requires
        0 <= m <= s.len(),
    ensures
        host_vnets(b, s.take(m), h).len() <= host_vnets(b, s, h).len(),
        forall|k: int| 0 <= k < host_vnets(b, s.take(m), h).len() ==> host_vnets(b, s, h)[k] == #[trigger] host_vnets(b, s.take(m), h)[k],
    decreases s.len(),
{
    if m == s.len() {
        assert(s.take(m) =~= s);
    } else {
        assert(s.take(m) =~= s.drop_last().take(m));
        lemma_host_vnets_prefix(b, s.drop_last(), m, h);
    }
}

/// Resolves the SDN zones of hypervisor `host_name` and the VNets in them,
/// checking every subnet's gateway and DHCP range.
#[verifier::loop_isolation(false)]
pub fn resolve_proxmox_sdn_plan(b: &ConfigBundle, host_name: &str) -> (r: Result<ResolvedProxmoxSdnPlan, PlanError>)
    requires
        b.wf(),
    ensures
        r is Ok <==> sdn_ok(b, host_name@),
        r matches Ok(p) ==> sdn_plan_of(b, host_name@, p),
        r matches Err(err) ==> sdn_refusal(b, host_name@, err),
        lookup(b.inventory.hosts@, host_name@) is None ==> (r matches Err(PlanError::UnknownHost { host }) && host@ == host_name@),
        lookup(b.inventory.hosts@, host_name@) matches Some(h) ==> (!h.enabled ==> (r matches Err(PlanError::HostDisabled { host }) && host@ == host_name@)),
{
    let hi = match find(&b.inventory.hosts, host_name) {
        None => {
            return Err(PlanError::UnknownHost { host: owned(host_name) });
        },
        Some(hi) => hi,
    };
    if !b.inventory.hosts[hi].1.enabled {
        return Err(PlanError::HostDisabled { host: owned(host_name) });
    }
    let ghost zs = b.proxmox_sdn.zones@;
    let mut zones: Vec<ResolvedProxmoxSdnZone> = Vec::new();
    let mut i: usize = 0;
    while i < b.proxmox_sdn.zones.len()
        invariant
            i <= zs.len(),
            zones@.len() == host_zones(zs.take(i as int), host_name@).len(),
            forall|k: int| 0 <= k < zones@.len() ==> {
                let z = #[trigger] zones@[k];
                let w = host_zones(zs.take(i as int), host_name@)[k];
                z.name@ == w.0@ && z.kind == w.1.kind && z.ipam == w.1.ipam && z.dhcp == w.1.dhcp
            },
            forall|z: Seq<char>| #[trigger] resolved_zone_named(zones@, z) <==> zone_in_prefix(zs, i as int, host_name@, z),
        decreases zs.len() - i,
    {
        assert(zs.take(i + 1).drop_last() =~= zs.take(i as int));
        let e = &b.proxmox_sdn.zones[i];
        let ghost before = zones@;
        let pushed = str_eq(e.1.host.as_str(), host_name);
        if pushed {
            zones.push(ResolvedProxmoxSdnZone { name: owned(e.0.as_str()), kind: e.1.kind, ipam: e.1.ipam, dhcp: e.1.dhcp });
        }
        proof {
            assert forall|z: Seq<char>| #[trigger] resolved_zone_named(zones@, z) <==> zone_in_prefix(zs, i + 1, host_name@, z) by {
                if zone_in_prefix(zs, i + 1, host_name@, z) {
                    let m = choose|m: int| 0 <= m < i + 1 && (#[trigger] zs[m]).0@ == z && zs[m].1.host@ == host_name@;
                    if m < i {
                        assert(zone_in_prefix(zs, i as int, host_name@, z));
                        assert(resolved_zone_named(before, z));
                        let k = choose|k: int| 0 <= k < before.len() && #[trigger] before[k].name@ == z;
                        assert(zones@[k].name@ == z);
                    } else {
                        assert(zones@[before.len() as int].name@ == z);
                    }
                }
                if resolved_zone_named(zones@, z) {
                    let k = choose|k: int| 0 <= k < zones@.len() && #[trigger] zones@[k].name@ == z;
                    if k < before.len() {
                        assert(before[k].name@ == z);
                        assert(resolved_zone_named(before, z));
                        let m = choose|m: int| 0 <= m < i && (#[trigger] zs[m]).0@ == z && zs[m].1.host@ == host_name@;
                        assert(zs[m].0@ == z);
                    } else {
                        assert(zs[i as int].0@ == z);
                    }
                }
            }
        }
        i = i + 1;
    }
    assert(zs.take(zs.len() as int) =~= zs);
    if zones.len() == 0 {
        return Err(PlanError::NoSdnZones { host: owned(host_name) });
    }
    let ghost vs = b.proxmox_sdn.vnets@;
    let mut vnets: Vec<ResolvedProxmoxSdnVnet> = Vec::new();
    let mut i: usize = 0;
    while i < b.proxmox_sdn.vnets.len()
        invariant
            i <= vs.len(),
            vnets@.len() == host_vnets(b, vs.take(i as int), host_name@).len(),
            forall|k: int| 0 <= k < vnets@.len() ==> {
                let v = #[trigger] vnets@[k];
                let w = host_vnets(b, vs.take(i as int), host_name@)[k];
                &&& v.name@ == w.0@
                &&& v.zone@ == w.1.zone@
                &&& opt_text(v.alias) == opt_text(w.1.alias)
                &&& v.subnets@.len() == w.1.subnets@.len()
                &&& forall|j: int| 0 <= j < v.subnets@.len() ==> subnet_resolved(w.1.zone@, w.1.subnets@[j], #[trigger] v.subnets@[j])
                &&& forall|j: int| 0 <= j < w.1.subnets@.len() ==> subnet_ok(#[trigger] w.1.subnets@[j])
            },
        decreases vs.len() - i,
    {
        assert(vs.take(i + 1).drop_last() =~= vs.take(i as int));
        let e = &b.proxmox_sdn.vnets[i];
        let mut selected = false;
        let mut k: usize = 0;
        while k < zones.len()
            invariant
                k <= zones@.len(),
                selected <==> exists|q: int| 0 <= q < k && #[trigger] zones@[q].name@ == e.1.zone@,
            decreases zones@.len() - k,
        {
            if str_eq(zones[k].name.as_str(), e.1.zone.as_str()) {
                selected = true;
            }
            k = k + 1;
        }
        assert(selected == resolved_zone_named(zones@, e.1.zone@));
        assert(selected == zone_on_host(b, host_name@, e.1.zone@));
        if selected {
            let mut subnets: Vec<ResolvedProxmoxSdnSubnet> = Vec::new();
            let mut j: usize = 0;
            while j < e.1.subnets.len()
                invariant
                    j <= e.1.subnets@.len(),
                    subnets@.len() == j,
                    forall|q: int| 0 <= q < j ==> subnet_resolved(e.1.zone@, e.1.subnets@[q], #[trigger] subnets@[q]),
                    forall|q: int| 0 <= q < j ==> subnet_ok(#[trigger] e.1.subnets@[q]),
                decreases e.1.subnets@.len() - j,
            {
                let sn = &e.1.subnets[j];
                assert(sn.cidr.wf());
                let bad = if !ipv4_contains(sn.cidr, sn.gateway) {
                    Some(PlanError::SdnGatewayOutside { vnet: owned(e.0.as_str()), gateway: sn.gateway, cidr: sn.cidr })
                } else if !ipv4_contains(sn.cidr, sn.dhcp_start) || !ipv4_contains(sn.cidr, sn.dhcp_end) {
                    Some(PlanError::SdnDhcpOutside { vnet: owned(e.0.as_str()), start: sn.dhcp_start, end: sn.dhcp_end, cidr: sn.cidr })
                } else if sn.dhcp_start > sn.dhcp_end {
                    Some(PlanError::SdnDhcpReversed { vnet: owned(e.0.as_str()), start: sn.dhcp_start, end: sn.dhcp_end })
                } else if sn.gateway >= sn.dhcp_start && sn.gateway <= sn.dhcp_end {
                    Some(PlanError::SdnGatewayInDhcp { vnet: owned(e.0.as_str()), gateway: sn.gateway })
                } else {
                    None
                };
                match bad {
                    Some(err) => {
                        proof {
                            lemma_host_vnets_prefix(b, vs, i + 1, host_name@);
                            let k = host_vnets(b, vs.take(i as int), host_name@).len() as int;
                            assert(vs.take(i + 1).last() == vs[i as int]);
                            assert(host_vnets(b, vs.take(i + 1), host_name@)[k] == vs[i as int]);
                            assert(host_vnets(b, vs, host_name@)[k] == vs[i as int]);
                            assert(!subnet_ok(host_vnets(b, vs, host_name@)[k].1.subnets@[j as int]));
                            lemma_host_vnets_prefix(b, vs, i as int, host_name@);
                            let hv = host_vnets(b, vs, host_name@);
                            assert forall|a2: int, c2: int| 0 <= a2 < k && 0 <= c2 < hv[a2].1.subnets@.len() implies subnet_ok(#[trigger] hv[a2].1.subnets@[c2]) by {
                                let v = vnets@[a2];
                                assert(hv[a2] == host_vnets(b, vs.take(i as int), host_name@)[a2]);
                            }
                            assert(first_bad_subnet(hv, k, j as int));
                            assert(hv.len() > 0);
                            assert(host_zones(zs, host_name@).len() > 0);
                        }
                        return Err(err);
                    },
                    None => {},
                }
                subnets.push(ResolvedProxmoxSdnSubnet {
                    id: subnet_id(e.1.zone.as_str(), sn.cidr),
                    cidr: sn.cidr,
                    gateway: sn.gateway,
                    dhcp_start: sn.dhcp_start,
                    dhcp_end: sn.dhcp_end,
                    snat: sn.snat,
                });
                j = j + 1;
            }
            vnets.push(ResolvedProxmoxSdnVnet { name: owned(e.0.as_str()), zone: owned(e.1.zone.as_str()), alias: copy_opt(&e.1.alias), subnets });
        }
        i = i + 1;
    }
    assert(vs.take(vs.len() as int) =~= vs);
    if vnets.len() == 0 {
        return Err(PlanError::NoSdnVnets { host: owned(host_name) });
    }
    proof {
        let hv = host_vnets(b, vs, host_name@);
        assert forall|a: int, c: int| 0 <= a < hv.len() && 0 <= c < hv[a].1.subnets@.len() implies subnet_ok(#[trigger] hv[a].1.subnets@[c]) by {
            let v = vnets@[a];
            assert(v.name@ == hv[a].0@);
        }
    }
    Ok(ResolvedProxmoxSdnPlan { location: owned(b.location.name.as_str()), host: owned(host_name), zones, vnets })
}

} // verus!
