//! What the Proxmox adapter renders: the host network plan of one host.

use vstd::prelude::*;

use crate::adapter::AdapterError;
use crate::model::HostNetworkProvider;
use crate::plan::dns::dns_plan_requires;
use crate::model::{ConfigBundle, HostNetworkBridge};
use crate::plan::host_network::{
    bridge_resolved, host_network_ok, host_network_reaches_dns, host_network_refusal, host_network_plan_of, resolve_host_network_plan,
    ResolvedHostBridge, ResolvedHostNetworkPlan,
};
use crate::table::lookup;
use crate::validate::host_network::mgmt_count;
use crate::table::opt_text;
use crate::text::{owned, str_eq};

verus! {

/// How many bridges are attached to the management interface.
pub open spec fn management_bridges(bridges: Seq<ResolvedHostBridge>, mgmt: Seq<char>) -> nat
    decreases bridges.len(),
{
    if bridges.len() == 0 {
        0
    } else {
        management_bridges(bridges.drop_last(), mgmt) + if opt_text(bridges.last().location_interface) == Some(mgmt) {
            1nat
        } else {
            0nat
        }
    }
}

/// The host the Proxmox adapter renders for, which must be given, and its
/// host network plan.
pub fn plan_for_context(b: &crate::model::ConfigBundle, target_host: Option<&str>) -> (r: Result<(String, ResolvedHostNetworkPlan), AdapterError>)
    requires
        b.wf(),
        target_host matches Some(h) ==> (host_network_reaches_dns(b, h@) ==> dns_plan_requires(b)),
    ensures
        target_host is None ==> r matches Err(AdapterError::TargetHostRequired { .. }),
        target_host matches Some(h) ==> (r matches Err(e) ==> e matches AdapterError::Plan(pe) && host_network_refusal(b, h@, pe)),
        target_host matches Some(h) ==> (r is Ok <==> host_network_ok(b, h@)),
        target_host matches Some(h) ==> (r matches Ok(x) ==> x.0@ == h@ && host_network_plan_of(b, h@, x.1)),
{
    let host = match target_host {
        None => {
            return Err(AdapterError::TargetHostRequired { adapter: owned("proxmox") });
        },
        Some(h) => h,
    };
    match resolve_host_network_plan(b, host) {
        Ok(plan) => Ok((owned(host), plan)),
        Err(e) => Err(AdapterError::Plan(e)),
    }
}

/// A plan the Proxmox adapter can render: ifupdown2, at least one bridge,
/// exactly one bridge on the management interface.
pub fn validate_plan(plan: &ResolvedHostNetworkPlan) -> (r: Result<(), AdapterError>)
    ensures
        r is Ok <==> plan.provider == HostNetworkProvider::ProxmoxIfupdown2 && plan.bridges@.len() > 0
            && management_bridges(plan.bridges@, plan.management_interface@) == 1,
        r matches Err(e) ==> if plan.provider != HostNetworkProvider::ProxmoxIfupdown2 {
            e is NotProxmoxProvider
        } else if plan.bridges@.len() == 0 {
            e is NoBridges
        } else {
            e is ManagementBridgeCount
        },
{
    if plan.provider != HostNetworkProvider::ProxmoxIfupdown2 {
        return Err(AdapterError::NotProxmoxProvider { host: owned(plan.host.as_str()) });
    }
    if plan.bridges.len() == 0 {
        return Err(AdapterError::NoBridges { host: owned(plan.host.as_str()) });
    }
    let mut count: usize = 0;
    let mut i: usize = 0;
    while i < plan.bridges.len()
        invariant
            i <= plan.bridges@.len(),
            count == management_bridges(plan.bridges@.take(i as int), plan.management_interface@),
            count <= i,
        decreases plan.bridges@.len() - i,
    {
        assert(plan.bridges@.take(i + 1).drop_last() =~= plan.bridges@.take(i as int));
        let on_mgmt = match &plan.bridges[i].location_interface {
            Some(li) => str_eq(li.as_str(), plan.management_interface.as_str()),
            None => false,
        };
        if on_mgmt {
            count = count + 1;
        }
        i = i + 1;
    }
    assert(plan.bridges@.take(plan.bridges@.len() as int) =~= plan.bridges@);
    if count != 1 {
        return Err(AdapterError::ManagementBridgeCount { host: owned(plan.host.as_str()) });
    }
    Ok(())
}

/// Bridges with the same location interfaces, position by position, have
/// as many on the management interface.
proof fn lemma_management_bridges_count(pb: Seq<ResolvedHostBridge>, nb: Seq<HostNetworkBridge>, m: Seq<char>)
    requires
        pb.len() == nb.len(),
        forall|i: int| 0 <= i < pb.len() ==> opt_text((#[trigger] pb[i]).location_interface) == opt_text(nb[i].location_interface),
    ensures
        management_bridges(pb, m) == mgmt_count(nb, m),
    decreases pb.len(),
{
    if pb.len() > 0 {
        lemma_management_bridges_count(pb.drop_last(), nb.drop_last(), m);
        assert(opt_text(pb[pb.len() - 1].location_interface) == opt_text(nb[nb.len() - 1].location_interface));
    }
}

/// A resolved host network plan has at least one bridge and exactly one on
/// its management interface: the Proxmox adapter accepts every resolved plan
/// of a host that uses the ifupdown2 provider.
pub proof fn law_resolved_host_plan_has_one_management_bridge(b: &ConfigBundle, host: Seq<char>, p: ResolvedHostNetworkPlan)
    requires
        host_network_ok(b, host),
        host_network_plan_of(b, host, p),
    ensures
        p.bridges@.len() > 0,
        management_bridges(p.bridges@, p.management_interface@) == 1,
        p.provider == lookup(b.inventory.hosts@, host)->0.network->0.provider,
{
    let net = lookup(b.inventory.hosts@, host)->0.network->0;
    assert forall|i: int| 0 <= i < p.bridges@.len() implies opt_text((#[trigger] p.bridges@[i]).location_interface) == opt_text(net.bridges@[i].location_interface) by {
        assert(bridge_resolved(b, host, net.bridges@[i], p.bridges@[i]));
    }
    lemma_management_bridges_count(p.bridges@, net.bridges@, net.management_interface@);
    if net.bridges@.len() == 0 {
        assert(mgmt_count(net.bridges@, net.management_interface@) == 0);
    }
}

} // verus!
