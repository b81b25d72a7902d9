//! Cross-references between configuration files.

use vstd::prelude::*;

use super::{reference_error, ValidationError};
use crate::model::{ConfigBundle, DnsRecord, DnsRecordKind, NetworkRouting, RoutingMode, TailscaleStrategy};
use crate::table::{contains_key, find, has_key, lookup};
use crate::text::{chars_of, first_index, index_of, owned, slice_chars, str_eq, string_from_chars};

verus! {

/// Every declared parent host is an inventory host.
pub open spec fn parents_ok(b: &ConfigBundle) -> bool {
    forall|i: int|
        0 <= i < b.inventory.hosts@.len() ==> match (#[trigger] b.inventory.hosts@[i]).1.parent {
            Some(p) => has_key(b.inventory.hosts@, p@),
            None => true,
        }
}

/// Every declared network owner is an inventory host.
pub open spec fn owners_ok(b: &ConfigBundle) -> bool {
    forall|i: int|
        0 <= i < b.networks.networks@.len() ==> match (#[trigger] b.networks.networks@[i]).1.owner {
            Some(o) => has_key(b.inventory.hosts@, o@),
            None => true,
        }
}

/// Every service runs on a known host, attaches to a known network and, when
/// it is a web service, names a known proxy service.
pub open spec fn service_refs_ok(b: &ConfigBundle) -> bool {
    forall|i: int|
        0 <= i < b.services.services@.len() ==> {
            let s = (#[trigger] b.services.services@[i]).1;
            &&& has_key(b.inventory.hosts@, s.host@)
            &&& has_key(b.networks.networks@, s.network@)
            &&& match s.web {
                Some(w) => has_key(b.services.services@, w.proxy@),
                None => true,
            }
        }
}

/// Every host attached at the location is an inventory host, and each of its
/// interfaces sits on a segment of the location.
pub open spec fn location_hosts_ok(b: &ConfigBundle) -> bool {
    forall|i: int|
        0 <= i < b.location.hosts@.len() ==> {
            let lh = #[trigger] b.location.hosts@[i];
            &&& has_key(b.inventory.hosts@, lh.0@)
            &&& forall|j: int|
                0 <= j < lh.1.interfaces@.len() ==> has_key(
                    b.location.segments@,
                    (#[trigger] lh.1.interfaces@[j]).1.segment@,
                )
        }
}

/// A routing policy names the endpoints its mode needs, and only those, and
/// they are inventory hosts.
pub open spec fn route_ok(b: &ConfigBundle, r: NetworkRouting) -> bool {
    &&& match r.mode {
        RoutingMode::Direct => r.via is None,
        RoutingMode::ViaHost => match r.via {
            Some(v) => has_key(b.inventory.hosts@, v@),
            None => false,
        },
        RoutingMode::HostPrivate => r.from is None && r.via is None,
    }
    &&& match r.from {
        Some(f) => has_key(b.inventory.hosts@, f@),
        None => true,
    }
}

pub open spec fn routes_ok(b: &ConfigBundle) -> bool {
    forall|i: int|
        0 <= i < b.networks.networks@.len() ==> match (#[trigger] b.networks.networks@[i]).1.routing {
            Some(r) => route_ok(b, r),
            None => true,
        }
}

/// An advertised route `segment:<name>` names a location segment;
/// `network:<name>` names a network that is routed (not host-private) from
/// the advertising router.
pub open spec fn advertise_ok(b: &ConfigBundle, router: Seq<char>, reference: Seq<char>) -> bool {
    let k = first_index(reference, ':');
    let kind = reference.take(k);
    let name = reference.skip(k + 1);
    &&& k >= 0
    &&& if kind == "segment"@ {
        has_key(b.location.segments@, name)
    } else if kind == "network"@ {
        match lookup(b.networks.networks@, name) {
            Some(n) => match n.routing {
                Some(r) => r.mode != RoutingMode::HostPrivate && (r.from matches Some(f) && f@
                    == router),
                None => false,
            },
            None => false,
        }
    } else {
        false
    }
}

/// The Tailscale strategy is set and its needs are met.
pub open spec fn tailscale_strategy_ok(b: &ConfigBundle) -> bool {
    let t = b.location.tailscale;
    match t.strategy {
        Some(TailscaleStrategy::SubnetRouter) => match t.primary_router {
            Some(p) => has_key(t.routers@, p@),
            None => false,
        },
        Some(TailscaleStrategy::HaSubnetRouter) => t.routers@.len() >= 2,
        Some(TailscaleStrategy::DirectNodes) => true,
        None => false,
    }
}

/// Tailscale settings: none at all when disabled; otherwise a strategy whose
/// needs are met, routers that are inventory hosts, and valid advertised routes.
pub open spec fn tailscale_ok(b: &ConfigBundle) -> bool {
    let t = b.location.tailscale;
    if !t.enabled {
        t.primary_router is None && t.routers@.len() == 0
    } else {
        &&& tailscale_strategy_ok(b)
        &&& forall|i: int|
            0 <= i < t.routers@.len() ==> {
                let r = #[trigger] t.routers@[i];
                &&& has_key(b.inventory.hosts@, r.0@)
                &&& forall|j: int|
                    0 <= j < r.1.advertise@.len() ==> advertise_ok(b, r.0@, (#[trigger] r.1.advertise@[j])@)
            }
    }
}

/// A DNS record names the target its kind needs, and the target exists.
pub open spec fn record_ok(b: &ConfigBundle, r: DnsRecord) -> bool {
    match r.kind {
        DnsRecordKind::Host => match r.target {
            Some(t) => has_key(b.inventory.hosts@, t@) && r.interface is Some,
            None => false,
        },
        DnsRecordKind::Service | DnsRecordKind::Proxy => match r.target {
            Some(t) => has_key(b.services.services@, t@),
            None => false,
        },
        DnsRecordKind::Cname => r.target is Some,
        DnsRecordKind::SegmentGateway => match r.target {
            Some(t) => has_key(b.location.segments@, t@),
            None => false,
        },
    }
}

pub open spec fn records_ok(b: &ConfigBundle) -> bool {
    forall|i: int| 0 <= i < b.dns.records@.len() ==> record_ok(b, #[trigger] b.dns.records@[i])
}

/// Some network uses `key` as its allocation key.
pub open spec fn key_allocated(b: &ConfigBundle, key: Seq<char>) -> bool {
    exists|j: int|
        0 <= j < b.networks.networks@.len() && (#[trigger] b.networks.networks@[j]).1.allocation_key@
            == key
}

/// Every ULA network allocation matches the allocation key of some network.
pub open spec fn ula_keys_ok(b: &ConfigBundle) -> bool {
    match b.allocations.ula {
        Some(u) => forall|i: int|
            0 <= i < u.networks@.len() ==> key_allocated(b, (#[trigger] u.networks@[i]).0@),
        None => true,
    }
}

/// All cross-reference rules.
pub open spec fn references_ok(b: &ConfigBundle) -> bool {
    &&& parents_ok(b)
    &&& owners_ok(b)
    &&& service_refs_ok(b)
    &&& location_hosts_ok(b)
    &&& routes_ok(b)
    &&& tailscale_ok(b)
    &&& has_key(b.services.services@, b.dns.dns.service@)
    &&& records_ok(b)
    &&& ula_keys_ok(b)
}

/// Inventory host `i` names no parent or a known one.
pub open spec fn parent_ok_at(b: &ConfigBundle, i: int) -> bool {
    match b.inventory.hosts@[i].1.parent {
        Some(p) => has_key(b.inventory.hosts@, p@),
        None => true,
    }
}

/// Network `i` names no owner or a known one.
pub open spec fn owner_ok_at(b: &ConfigBundle, i: int) -> bool {
    match b.networks.networks@[i].1.owner {
        Some(o) => has_key(b.inventory.hosts@, o@),
        None => true,
    }
}

/// The references of service `i` are known.
pub open spec fn service_ref_ok_at(b: &ConfigBundle, i: int) -> bool {
    let s = b.services.services@[i].1;
    &&& has_key(b.inventory.hosts@, s.host@)
    &&& has_key(b.networks.networks@, s.network@)
    &&& match s.web {
        Some(w) => has_key(b.services.services@, w.proxy@),
        None => true,
    }
}

/// Interface `k` of attached host `i` sits on a known segment.
pub open spec fn interface_segment_ok_at(b: &ConfigBundle, i: int, k: int) -> bool {
    has_key(b.location.segments@, b.location.hosts@[i].1.interfaces@[k].1.segment@)
}

/// Attached host `i` is known and all its interfaces sit on known segments.
pub open spec fn location_host_ok_at(b: &ConfigBundle, i: int) -> bool {
    let lh = b.location.hosts@[i];
    &&& has_key(b.inventory.hosts@, lh.0@)
    &&& forall|k: int| 0 <= k < lh.1.interfaces@.len() ==> has_key(b.location.segments@, (#[trigger] lh.1.interfaces@[k]).1.segment@)
}

/// Network `i` has no routing policy or a valid one.
pub open spec fn route_ok_at(b: &ConfigBundle, i: int) -> bool {
    match b.networks.networks@[i].1.routing {
        Some(r) => route_ok(b, r),
        None => true,
    }
}

/// Tailscale router `i` is a known host whose advertised routes are valid.
pub open spec fn router_ok_at(b: &ConfigBundle, i: int) -> bool {
    let r = b.location.tailscale.routers@[i];
    &&& has_key(b.inventory.hosts@, r.0@)
    &&& forall|k: int| 0 <= k < r.1.advertise@.len() ==> advertise_ok(b, r.0@, (#[trigger] r.1.advertise@[k])@)
}

/// Why routing policy `r` of network `network` is refused, checked in this
/// order: the endpoints its mode needs or forbids, then its source host.
pub open spec fn route_refusal(b: &ConfigBundle, network: Seq<char>, r: NetworkRouting, e: ValidationError) -> bool {
    let mode_ok = match r.mode {
        RoutingMode::Direct => r.via is None,
        RoutingMode::ViaHost => match r.via {
            Some(v) => has_key(b.inventory.hosts@, v@),
            None => false,
        },
        RoutingMode::HostPrivate => r.from is None && r.via is None,
    };
    if !mode_ok {
        match r.mode {
            RoutingMode::Direct => e matches ValidationError::DirectRouteWithVia { network: n } && n@ == network,
            RoutingMode::ViaHost => match r.via {
                Some(v) => e matches ValidationError::UnknownGatewayHost { network: n, via } && n@ == network && via@ == v@,
                None => e matches ValidationError::ViaHostWithoutVia { network: n } && n@ == network,
            },
            RoutingMode::HostPrivate => e matches ValidationError::HostPrivateWithEndpoints { network: n } && n@ == network,
        }
    } else {
        e matches ValidationError::UnknownSourceHost { network: n, from } && n@ == network && from@ == r.from->0@
    }
}

/// Why advertised route `reference` of router `router` is refused.
pub open spec fn advertise_refusal(b: &ConfigBundle, router: Seq<char>, reference: Seq<char>, e: ValidationError) -> bool {
    let k = first_index(reference, ':');
    let kind = reference.take(k);
    let name = reference.skip(k + 1);
    if k < 0 {
        e matches ValidationError::InvalidAdvertiseReference { reference: x } && x@ == reference
    } else if kind == "segment"@ {
        e matches ValidationError::AdvertisesUnknownSegment { router: x, segment } && x@ == router && segment@ == name
    } else if kind == "network"@ {
        match lookup(b.networks.networks@, name) {
            None => e matches ValidationError::AdvertisesUnknownNetwork { router: x, network } && x@ == router && network@ == name,
            Some(n) => match n.routing {
                None => e matches ValidationError::AdvertisedNetworkNoRouting { network } && network@ == name,
                Some(r) => if r.mode == RoutingMode::HostPrivate {
                    e matches ValidationError::AdvertisesHostPrivate { network } && network@ == name
                } else {
                    e matches ValidationError::NetworkNotRoutedFrom { network, router: x } && network@ == name && x@ == router
                },
            },
        }
    } else {
        e matches ValidationError::UnsupportedAdvertiseReference { reference: x } && x@ == reference
    }
}

/// Why DNS record `r` is refused: a missing target, an unknown target, or a
/// host record without an interface.
pub open spec fn record_refusal(b: &ConfigBundle, r: DnsRecord, e: ValidationError) -> bool {
    let missing = e matches ValidationError::DnsRecordMissingTarget { record, kind } && record@ == r.name@ && kind == r.kind;
    match r.target {
        None => missing,
        Some(t) => match r.kind {
            DnsRecordKind::Host => if !has_key(b.inventory.hosts@, t@) {
                e matches ValidationError::DnsRecordUnknownHost { record, host } && record@ == r.name@ && host@ == t@
            } else {
                e matches ValidationError::DnsHostRecordMissingInterface { record } && record@ == r.name@
            },
            DnsRecordKind::Service | DnsRecordKind::Proxy => e matches ValidationError::DnsRecordUnknownService { record, service }
                && record@ == r.name@ && service@ == t@,
            DnsRecordKind::Cname => false,
            DnsRecordKind::SegmentGateway => e matches ValidationError::DnsRecordUnknownSegment { record, segment }
                && record@ == r.name@ && segment@ == t@,
        },
    }
}

/// Why the Tailscale settings are refused, checked in this order: routers
/// while disabled; the strategy and its needs; the first router that is not
/// a known host or advertises an invalid route.
pub open spec fn tailscale_refusal(b: &ConfigBundle, e: ValidationError) -> bool {
    let t = b.location.tailscale;
    if !t.enabled {
        e is TailscaleDisabledWithRouters
    } else if !tailscale_strategy_ok(b) {
        match t.strategy {
            None => e is TailscaleNoStrategy,
            Some(TailscaleStrategy::SubnetRouter) => match t.primary_router {
                None => e is SubnetRouterNoPrimary,
                Some(p) => e matches ValidationError::PrimaryRouterUnconfigured { router } && router@ == p@,
            },
            _ => e is HaNeedsTwoRouters,
        }
    } else {
        exists|i: int| #![trigger t.routers@[i]] 0 <= i < t.routers@.len() && !router_ok_at(b, i)
            && (forall|j: int| 0 <= j < i ==> #[trigger] router_ok_at(b, j))
            && if !has_key(b.inventory.hosts@, t.routers@[i].0@) {
                e matches ValidationError::TailscaleRouterUnknownHost { router } && router@ == t.routers@[i].0@
            } else {
                let adv = t.routers@[i].1.advertise@;
                exists|k: int| #![trigger adv[k]] 0 <= k < adv.len() && !advertise_ok(b, t.routers@[i].0@, adv[k]@)
                    && (forall|m: int| 0 <= m < k ==> advertise_ok(b, t.routers@[i].0@, (#[trigger] adv[m])@))
                    && advertise_refusal(b, t.routers@[i].0@, adv[k]@, e)
            }
    }
}

/// The first host with an unknown parent.
pub open spec fn parents_refusal(b: &ConfigBundle, e: ValidationError) -> bool {
    exists|i: int| #![trigger b.inventory.hosts@[i]] 0 <= i < b.inventory.hosts@.len() && !parent_ok_at(b, i)
        && (forall|j: int| 0 <= j < i ==> #[trigger] parent_ok_at(b, j))
        && (e matches ValidationError::UnknownParentHost { host, parent } && host@ == b.inventory.hosts@[i].0@
            && parent@ == b.inventory.hosts@[i].1.parent->0@)
}

/// The first network with an unknown owner.
pub open spec fn owners_refusal(b: &ConfigBundle, e: ValidationError) -> bool {
    exists|i: int| #![trigger b.networks.networks@[i]] 0 <= i < b.networks.networks@.len() && !owner_ok_at(b, i)
        && (forall|j: int| 0 <= j < i ==> #[trigger] owner_ok_at(b, j))
        && (e matches ValidationError::UnknownNetworkOwner { network, owner } && network@ == b.networks.networks@[i].0@
            && owner@ == b.networks.networks@[i].1.owner->0@)
}

/// The first service with an unknown host, network or proxy, in that order.
pub open spec fn service_refs_refusal(b: &ConfigBundle, e: ValidationError) -> bool {
    exists|i: int| #![trigger b.services.services@[i]] 0 <= i < b.services.services@.len() && !service_ref_ok_at(b, i)
        && (forall|j: int| 0 <= j < i ==> #[trigger] service_ref_ok_at(b, j))
        && {
            let name = b.services.services@[i].0@;
            let s = b.services.services@[i].1;
            if !has_key(b.inventory.hosts@, s.host@) {
                e matches ValidationError::ServiceUnknownHost { service, host } && service@ == name && host@ == s.host@
            } else if !has_key(b.networks.networks@, s.network@) {
                e matches ValidationError::ServiceUnknownNetwork { service, network } && service@ == name && network@ == s.network@
            } else {
                e matches ValidationError::ServiceUnknownProxy { service, proxy } && service@ == name && proxy@ == s.web->0.proxy@
            }
        }
}

/// The first attached host that is unknown or has an interface on an
/// unknown segment (its first such interface).
pub open spec fn location_hosts_refusal(b: &ConfigBundle, e: ValidationError) -> bool {
    exists|i: int| #![trigger b.location.hosts@[i]] 0 <= i < b.location.hosts@.len() && !location_host_ok_at(b, i)
        && (forall|j: int| 0 <= j < i ==> #[trigger] location_host_ok_at(b, j))
        && if !has_key(b.inventory.hosts@, b.location.hosts@[i].0@) {
            e matches ValidationError::LocationUnknownHost { host } && host@ == b.location.hosts@[i].0@
        } else {
            let ifs = b.location.hosts@[i].1.interfaces@;
            exists|k: int| #![trigger ifs[k]] 0 <= k < ifs.len() && !interface_segment_ok_at(b, i, k)
                && (forall|m: int| 0 <= m < k ==> #[trigger] interface_segment_ok_at(b, i, m))
                && (e matches ValidationError::InterfaceUnknownSegment { host, interface, segment }
                    && host@ == b.location.hosts@[i].0@ && interface@ == ifs[k].0@ && segment@ == ifs[k].1.segment@)
        }
}

/// The first network whose routing policy is refused.
pub open spec fn routes_refusal(b: &ConfigBundle, e: ValidationError) -> bool {
    exists|i: int| #![trigger b.networks.networks@[i]] 0 <= i < b.networks.networks@.len() && !route_ok_at(b, i)
        && (forall|j: int| 0 <= j < i ==> #[trigger] route_ok_at(b, j))
        && route_refusal(b, b.networks.networks@[i].0@, b.networks.networks@[i].1.routing->0, e)
}

/// The first DNS record that is refused.
pub open spec fn records_refusal(b: &ConfigBundle, e: ValidationError) -> bool {
    exists|i: int| #![trigger b.dns.records@[i]] 0 <= i < b.dns.records@.len() && !record_ok(b, b.dns.records@[i])
        && (forall|j: int| 0 <= j < i ==> record_ok(b, #[trigger] b.dns.records@[j]))
        && record_refusal(b, b.dns.records@[i], e)
}

/// The first ULA network allocation that matches no network's key.
pub open spec fn ula_keys_refusal(b: &ConfigBundle, e: ValidationError) -> bool {
    let keys = b.allocations.ula->0.networks@;
    exists|i: int| #![trigger keys[i]] 0 <= i < keys.len() && !key_allocated(b, keys[i].0@)
        && (forall|j: int| 0 <= j < i ==> key_allocated(b, (#[trigger] keys[j]).0@))
        && (e matches ValidationError::UlaAllocationUnmatched { key } && key@ == keys[i].0@)
}

/// Why the cross-references are refused: the first rule, in the order they
/// are checked, that fails, at its first offending entry.
pub open spec fn reference_refusal(b: &ConfigBundle, e: ValidationError) -> bool {
    if !parents_ok(b) {
        parents_refusal(b, e)
    } else if !owners_ok(b) {
        owners_refusal(b, e)
    } else if !service_refs_ok(b) {
        service_refs_refusal(b, e)
    } else if !location_hosts_ok(b) {
        location_hosts_refusal(b, e)
    } else if !routes_ok(b) {
        routes_refusal(b, e)
    } else if !tailscale_ok(b) {
        tailscale_refusal(b, e)
    } else if !has_key(b.services.services@, b.dns.dns.service@) {
        e matches ValidationError::DnsUnknownService { service } && service@ == b.dns.dns.service@
    } else if !records_ok(b) {
        records_refusal(b, e)
    } else {
        ula_keys_refusal(b, e)
    }
}

fn check_parents(b: &ConfigBundle) -> (r: Result<(), ValidationError>)
    ensures
        r is Ok <==> parents_ok(b),
        r matches Err(e) ==> reference_error(e),
        r matches Err(e) ==> parents_refusal(b, e),
{
    let hosts = &b.inventory.hosts;
    let mut i: usize = 0;
    while i < hosts.len()
        invariant
            hosts == &b.inventory.hosts,
            i <= hosts@.len(),
            forall|j: int|
                0 <= j < i ==> match (#[trigger] hosts@[j]).1.parent {
                    Some(p) => has_key(hosts@, p@),
                    None => true,
                },
        decreases hosts@.len() - i,
    {
        if let Some(parent) = &hosts[i].1.parent {
            if !contains_key(hosts, parent.as_str()) {
                return Err(
                    ValidationError::UnknownParentHost {
                        host: hosts[i].0.clone(),
                        parent: parent.clone(),
                    },
                );
            }
        }
        i = i + 1;
    }
    Ok(())
}

fn check_owners(b: &ConfigBundle) -> (r: Result<(), ValidationError>)
    ensures
        r is Ok <==> owners_ok(b),
        r matches Err(e) ==> reference_error(e),
        r matches Err(e) ==> owners_refusal(b, e),
{
    let networks = &b.networks.networks;
    let mut i: usize = 0;
    while i < networks.len()
        invariant
            networks == &b.networks.networks,
            i <= networks@.len(),
            forall|j: int|
                0 <= j < i ==> match (#[trigger] networks@[j]).1.owner {
                    Some(o) => has_key(b.inventory.hosts@, o@),
                    None => true,
                },
        decreases networks@.len() - i,
    {
        if let Some(owner) = &networks[i].1.owner {
            if !contains_key(&b.inventory.hosts, owner.as_str()) {
                return Err(
                    ValidationError::UnknownNetworkOwner {
                        network: networks[i].0.clone(),
                        owner: owner.clone(),
                    },
                );
            }
        }
        i = i + 1;
    }
    Ok(())
}

fn check_service_refs(b: &ConfigBundle) -> (r: Result<(), ValidationError>)
    ensures
        r is Ok <==> service_refs_ok(b),
        r matches Err(e) ==> reference_error(e),
        r matches Err(e) ==> service_refs_refusal(b, e),
{
    let services = &b.services.services;
    let mut i: usize = 0;
    while i < services.len()
        invariant
            services == &b.services.services,
            i <= services@.len(),
            forall|j: int|
                0 <= j < i ==> {
                    let s = (#[trigger] services@[j]).1;
                    &&& has_key(b.inventory.hosts@, s.host@)
                    &&& has_key(b.networks.networks@, s.network@)
                    &&& match s.web {
                        Some(w) => has_key(services@, w.proxy@),
                        None => true,
                    }
                },
        decreases services@.len() - i,
    {
        let name = &services[i].0;
        let service = &services[i].1;
        if !contains_key(&b.inventory.hosts, service.host.as_str()) {
            return Err(
                ValidationError::ServiceUnknownHost { service: name.clone(), host: service.host.clone() },
            );
        }
        if !contains_key(&b.networks.networks, service.network.as_str()) {
            return Err(
                ValidationError::ServiceUnknownNetwork {
                    service: name.clone(),
                    network: service.network.clone(),
                },
            );
        }
        if let Some(web) = &service.web {
            if !contains_key(services, web.proxy.as_str()) {
                return Err(
                    ValidationError::ServiceUnknownProxy {
                        service: name.clone(),
                        proxy: web.proxy.clone(),
                    },
                );
            }
        }
        i = i + 1;
    }
    Ok(())
}

fn check_location_hosts(b: &ConfigBundle) -> (r: Result<(), ValidationError>)
    ensures
        r is Ok <==> location_hosts_ok(b),
        r matches Err(e) ==> reference_error(e),
        r matches Err(e) ==> location_hosts_refusal(b, e),
{
    let hosts = &b.location.hosts;
    let mut i: usize = 0;
    while i < hosts.len()
        invariant
            hosts == &b.location.hosts,
            i <= hosts@.len(),
            forall|j: int|
                0 <= j < i ==> {
                    let lh = #[trigger] hosts@[j];
                    &&& has_key(b.inventory.hosts@, lh.0@)
                    &&& forall|k: int|
                        0 <= k < lh.1.interfaces@.len() ==> has_key(
                            b.location.segments@,
                            (#[trigger] lh.1.interfaces@[k]).1.segment@,
                        )
                },
        decreases hosts@.len() - i,
    {
        let name = &hosts[i].0;
        proof {
            assert forall|j: int| 0 <= j < i implies #[trigger] location_host_ok_at(b, j) by {
                let _ = hosts@[j];
            }
        }
        if !contains_key(&b.inventory.hosts, name.as_str()) {
            proof {
                assert(!location_host_ok_at(b, i as int));
            }
            return Err(ValidationError::LocationUnknownHost { host: name.clone() });
        }
        let interfaces = &hosts[i].1.interfaces;
        let mut k: usize = 0;
        while k < interfaces.len()
            invariant
                hosts == &b.location.hosts,
                i < hosts@.len(),
                name == &hosts@[i as int].0,
                interfaces == &hosts@[i as int].1.interfaces,
                k <= interfaces@.len(),
                has_key(b.inventory.hosts@, name@),
                forall|j: int| 0 <= j < i ==> #[trigger] location_host_ok_at(b, j),
                forall|m: int|
                    0 <= m < k ==> has_key(b.location.segments@, (#[trigger] interfaces@[m]).1.segment@),
            decreases interfaces@.len() - k,
        {
            let segment = &interfaces[k].1.segment;
            if !contains_key(&b.location.segments, segment.as_str()) {
                proof {
                    assert(!interface_segment_ok_at(b, i as int, k as int));
                    assert(!location_host_ok_at(b, i as int));
                    assert forall|m: int| 0 <= m < k implies #[trigger] interface_segment_ok_at(b, i as int, m) by {
                        let _ = interfaces@[m];
                    }
                }
                return Err(
                    ValidationError::InterfaceUnknownSegment {
                        host: name.clone(),
                        interface: interfaces[k].0.clone(),
                        segment: segment.clone(),
                    },
                );
            }
            k = k + 1;
        }
        i = i + 1;
    }
    Ok(())
}

fn check_route(b: &ConfigBundle, name: &String, routing: &NetworkRouting) -> (r: Result<(), ValidationError>)
    ensures
        r is Ok <==> route_ok(b, *routing),
        r matches Err(e) ==> reference_error(e),
        r matches Err(e) ==> route_refusal(b, name@, *routing, e),
{
    match routing.mode {
        RoutingMode::Direct => {
            if routing.via.is_some() {
                return Err(ValidationError::DirectRouteWithVia { network: name.clone() });
            }
        },
        RoutingMode::ViaHost => {
            match &routing.via {
                Some(via) => {
                    if !contains_key(&b.inventory.hosts, via.as_str()) {
                        return Err(
                            ValidationError::UnknownGatewayHost { network: name.clone(), via: via.clone() },
                        );
                    }
                },
                None => {
                    return Err(ValidationError::ViaHostWithoutVia { network: name.clone() });
                },
            }
        },
        RoutingMode::HostPrivate => {
            if routing.from.is_some() || routing.via.is_some() {
                return Err(ValidationError::HostPrivateWithEndpoints { network: name.clone() });
            }
        },
    }
    if let Some(from) = &routing.from {
        if !contains_key(&b.inventory.hosts, from.as_str()) {
            return Err(ValidationError::UnknownSourceHost { network: name.clone(), from: from.clone() });
        }
    }
    Ok(())
}

fn validate_network_routes(b: &ConfigBundle) -> (r: Result<(), ValidationError>)
    ensures
        r is Ok <==> routes_ok(b),
        r matches Err(e) ==> reference_error(e),
        r matches Err(e) ==> routes_refusal(b, e),
{
    let networks = &b.networks.networks;
    let mut i: usize = 0;
    while i < networks.len()
        invariant
            networks == &b.networks.networks,
            i <= networks@.len(),
            forall|j: int|
                0 <= j < i ==> match (#[trigger] networks@[j]).1.routing {
                    Some(r) => route_ok(b, r),
                    None => true,
                },
        decreases networks@.len() - i,
    {
        if let Some(routing) = &networks[i].1.routing {
            check_route(b, &networks[i].0, routing)?;
        }
        i = i + 1;
    }
    Ok(())
}

fn check_advertise(b: &ConfigBundle, router: &String, reference: &String) -> (r: Result<(), ValidationError>)
    requires
        b.wf(),
    ensures
        r is Ok <==> advertise_ok(b, router@, reference@),
        r matches Err(e) ==> reference_error(e),
        r matches Err(e) ==> advertise_refusal(b, router@, reference@, e),
{
    let chars = chars_of(reference.as_str());
    let k = index_of(&chars, ':');
    if k == chars.len() {
        return Err(ValidationError::InvalidAdvertiseReference { reference: reference.clone() });
    }
    let kind_chars = slice_chars(&chars, 0, k);
    let name_chars = slice_chars(&chars, k + 1, chars.len());
    let kind = string_from_chars(&kind_chars);
    let name = string_from_chars(&name_chars);
    assert(kind@ =~= reference@.take(k as int));
    assert(name@ =~= reference@.skip(k + 1));
    if str_eq(kind.as_str(), "segment") {
        if !contains_key(&b.location.segments, name.as_str()) {
            return Err(ValidationError::AdvertisesUnknownSegment { router: router.clone(), segment: name });
        }
        Ok(())
    } else if str_eq(kind.as_str(), "network") {
        let idx = find(&b.networks.networks, name.as_str());
        match idx {
            None => Err(ValidationError::AdvertisesUnknownNetwork { router: router.clone(), network: name }),
            Some(n) => {
                let network = &b.networks.networks[n].1;
                match &network.routing {
                    None => Err(ValidationError::AdvertisedNetworkNoRouting { network: name }),
                    Some(routing) => {
                        if routing.mode == RoutingMode::HostPrivate {
                            return Err(ValidationError::AdvertisesHostPrivate { network: name });
                        }
                        let from_matches = match &routing.from {
                            Some(f) => str_eq(f.as_str(), router.as_str()),
                            None => false,
                        };
                        if !from_matches {
                            return Err(
                                ValidationError::NetworkNotRoutedFrom { network: name, router: router.clone() },
                            );
                        }
                        Ok(())
                    },
                }
            },
        }
    } else {
        Err(ValidationError::UnsupportedAdvertiseReference { reference: reference.clone() })
    }
}

fn validate_tailscale(b: &ConfigBundle) -> (r: Result<(), ValidationError>)
    requires
        b.wf(),
    ensures
        r is Ok <==> tailscale_ok(b),
        r matches Err(e) ==> reference_error(e),
        r matches Err(e) ==> tailscale_refusal(b, e),
{
    let t = &b.location.tailscale;
    if !t.enabled {
        if t.primary_router.is_some() || t.routers.len() != 0 {
            return Err(ValidationError::TailscaleDisabledWithRouters);
        }
        return Ok(());
    }
    match t.strategy {
        None => {
            return Err(ValidationError::TailscaleNoStrategy);
        },
        Some(TailscaleStrategy::SubnetRouter) => match &t.primary_router {
            None => {
                return Err(ValidationError::SubnetRouterNoPrimary);
            },
            Some(primary) => {
                if !contains_key(&t.routers, primary.as_str()) {
                    return Err(ValidationError::PrimaryRouterUnconfigured { router: primary.clone() });
                }
            },
        },
        Some(TailscaleStrategy::HaSubnetRouter) => {
            if t.routers.len() < 2 {
                return Err(ValidationError::HaNeedsTwoRouters);
            }
        },
        Some(TailscaleStrategy::DirectNodes) => {},
    }
    let routers = &t.routers;
    let mut i: usize = 0;
    while i < routers.len()
        invariant
            b.wf(),
            b.location.tailscale.enabled,
            tailscale_strategy_ok(b),
            routers == &b.location.tailscale.routers,
            i <= routers@.len(),
            forall|j: int|
                0 <= j < i ==> {
                    let r = #[trigger] routers@[j];
                    &&& has_key(b.inventory.hosts@, r.0@)
                    &&& forall|k: int|
                        0 <= k < r.1.advertise@.len() ==> advertise_ok(
                            b,
                            r.0@,
                            (#[trigger] r.1.advertise@[k])@,
                        )
                },
        decreases routers@.len() - i,
    {
        let name = &routers[i].0;
        proof {
            assert forall|j: int| 0 <= j < i implies #[trigger] router_ok_at(b, j) by {
                let _ = routers@[j];
            }
        }
        if !contains_key(&b.inventory.hosts, name.as_str()) {
            proof {
                assert(!router_ok_at(b, i as int));
            }
            return Err(ValidationError::TailscaleRouterUnknownHost { router: name.clone() });
        }
        let advertise = &routers[i].1.advertise;
        let mut k: usize = 0;
        while k < advertise.len()
            invariant
                b.wf(),
                b.location.tailscale.enabled,
                routers == &b.location.tailscale.routers,
                i < routers@.len(),
                advertise == &routers@[i as int].1.advertise,
                name == &routers@[i as int].0,
                k <= advertise@.len(),
                forall|m: int| 0 <= m < k ==> advertise_ok(b, name@, (#[trigger] advertise@[m])@),
                tailscale_strategy_ok(b),
                has_key(b.inventory.hosts@, name@),
                forall|j: int| 0 <= j < i ==> #[trigger] router_ok_at(b, j),
            decreases advertise@.len() - k,
        {
            match check_advertise(b, name, &advertise[k]) {
                Ok(()) => {},
                Err(e) => {
                    proof {
                        assert(!advertise_ok(b, name@, advertise@[k as int]@));
                        assert(!router_ok_at(b, i as int));
                    }
                    return Err(e);
                },
            }
            k = k + 1;
        }
        i = i + 1;
    }
    Ok(())
}

fn check_record(b: &ConfigBundle, record: &DnsRecord) -> (r: Result<(), ValidationError>)
    ensures
        r is Ok <==> record_ok(b, *record),
        r matches Err(e) ==> reference_error(e),
        r matches Err(e) ==> record_refusal(b, *record, e),
{
    match record.kind {
        DnsRecordKind::Host => match &record.target {
            None => Err(
                ValidationError::DnsRecordMissingTarget { record: record.name.clone(), kind: record.kind },
            ),
            Some(target) => {
                if !contains_key(&b.inventory.hosts, target.as_str()) {
                    return Err(
                        ValidationError::DnsRecordUnknownHost {
                            record: record.name.clone(),
                            host: target.clone(),
                        },
                    );
                }
                if record.interface.is_none() {
                    return Err(ValidationError::DnsHostRecordMissingInterface { record: record.name.clone() });
                }
                Ok(())
            },
        },
        DnsRecordKind::Service | DnsRecordKind::Proxy => match &record.target {
            None => Err(
                ValidationError::DnsRecordMissingTarget { record: record.name.clone(), kind: record.kind },
            ),
            Some(target) => {
                if !contains_key(&b.services.services, target.as_str()) {
                    return Err(
                        ValidationError::DnsRecordUnknownService {
                            record: record.name.clone(),
                            service: target.clone(),
                        },
                    );
                }
                Ok(())
            },
        },
        DnsRecordKind::Cname => {
            if record.target.is_none() {
                return Err(
                    ValidationError::DnsRecordMissingTarget { record: record.name.clone(), kind: record.kind },
                );
            }
            Ok(())
        },
        DnsRecordKind::SegmentGateway => match &record.target {
            None => Err(
                ValidationError::DnsRecordMissingTarget { record: record.name.clone(), kind: record.kind },
            ),
            Some(target) => {
                if !contains_key(&b.location.segments, target.as_str()) {
                    return Err(
                        ValidationError::DnsRecordUnknownSegment {
                            record: record.name.clone(),
                            segment: target.clone(),
                        },
                    );
                }
                Ok(())
            },
        },
    }
}

fn check_records(b: &ConfigBundle) -> (r: Result<(), ValidationError>)
    ensures
        r is Ok <==> records_ok(b),
        r matches Err(e) ==> reference_error(e),
        r matches Err(e) ==> records_refusal(b, e),
{
    let records = &b.dns.records;
    let mut i: usize = 0;
    while i < records.len()
        invariant
            records == &b.dns.records,
            i <= records@.len(),
            forall|j: int| 0 <= j < i ==> record_ok(b, #[trigger] records@[j]),
        decreases records@.len() - i,
    {
        check_record(b, &records[i])?;
        i = i + 1;
    }
    Ok(())
}

fn check_ula_keys(b: &ConfigBundle) -> (r: Result<(), ValidationError>)
    ensures
        r is Ok <==> ula_keys_ok(b),
        r matches Err(e) ==> reference_error(e),
        r matches Err(e) ==> ula_keys_refusal(b, e),
{
    match &b.allocations.ula {
        None => Ok(()),
        Some(ula) => {
            let keys = &ula.networks;
            let networks = &b.networks.networks;
            let mut i: usize = 0;
            while i < keys.len()
                invariant
                    b.allocations.ula is Some,
                    keys@ == b.allocations.ula->0.networks@,
                    networks == &b.networks.networks,
                    i <= keys@.len(),
                    forall|j: int| 0 <= j < i ==> key_allocated(b, (#[trigger] keys@[j]).0@),
                decreases keys@.len() - i,
            {
                let key = &keys[i].0;
                let mut m: usize = 0;
                let mut found = false;
                while m < networks.len()
                    invariant
                        m <= networks@.len(),
                        networks == &b.networks.networks,
                        found ==> key_allocated(b, key@),
                        !found ==> forall|q: int|
                            0 <= q < m ==> (#[trigger] networks@[q]).1.allocation_key@ != key@,
                    decreases networks@.len() - m,
                {
                    if networks[m].1.allocation_key == *key {
                        found = true;
                    }
                    m = m + 1;
                }
                if !found {
                    return Err(ValidationError::UlaAllocationUnmatched { key: key.clone() });
                }
                i = i + 1;
            }
            Ok(())
        },
    }
}

/// Checks every cross-reference rule, in the order the configuration is read.
pub fn validate_references(b: &ConfigBundle) -> (r: Result<(), ValidationError>)
    requires
        b.wf(),
    ensures
        r is Ok <==> references_ok(b),
        r matches Err(e) ==> reference_error(e),
        r matches Err(e) ==> reference_refusal(b, e),
{
    check_parents(b)?;
    check_owners(b)?;
    check_service_refs(b)?;
    check_location_hosts(b)?;
    validate_network_routes(b)?;
    validate_tailscale(b)?;
    if !contains_key(&b.services.services, b.dns.dns.service.as_str()) {
        return Err(ValidationError::DnsUnknownService { service: b.dns.dns.service.clone() });
    }
    check_records(b)?;
    check_ula_keys(b)?;
    Ok(())
}

} // verus!
