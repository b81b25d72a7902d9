//! The Docker daemon and networks of a container host.

use vstd::prelude::*;

use crate::model::{ConfigBundle, DockerHost, LogicalNetwork, NetworkKind};
use crate::net::{ipv4_network, ipv6_network, v4_network, v6_network, Ipv4Cidr, Ipv6Cidr};
use crate::plan::address::{network_ula, network_ula_of, network_ula_refusal};
use crate::plan::PlanError;
use crate::table::{
    find, lemma_opt_concat_none, lemma_opt_concat_step, lookup, opt_concat, string_in, texts,
    unique_keys,
};
use crate::text::{owned, str_eq};

verus! {

#[derive(Debug)]
pub struct ResolvedDockerDaemon {
    pub bridge_ipv4_cidr: Ipv4Cidr,
    pub bridge_ipv4_gateway: u32,
    pub bridge_ipv6_cidr: Ipv6Cidr,
    pub bridge_ipv6_gateway: u128,
    pub ipv4_pool_base: Ipv4Cidr,
    pub ipv4_pool_size: u8,
    pub ipv6_pool_base: Ipv6Cidr,
    pub ipv6_pool_size: u8,
}

#[derive(Debug)]
pub struct ResolvedDockerNetwork {
    pub logical_name: String,
    pub docker_name: String,
    pub ipv4_cidr: Ipv4Cidr,
    pub ipv4_gateway: u32,
    pub ipv6_cidr: Option<Ipv6Cidr>,
    pub ipv6_gateway: Option<u128>,
    pub previous_ipv6_cidr: Option<Ipv6Cidr>,
}

/// The Docker plan of one host.
#[derive(Debug)]
pub struct ResolvedDockerPlan {
    pub location: String,
    pub host: String,
    pub daemon: ResolvedDockerDaemon,
    pub networks: Vec<ResolvedDockerNetwork>,
}

/// A resolved Docker network as plain values.
pub struct DockerNetworkView {
    pub logical_name: Seq<char>,
    pub docker_name: Seq<char>,
    pub ipv4_cidr: Ipv4Cidr,
    pub ipv4_gateway: u32,
    pub ipv6_cidr: Option<Ipv6Cidr>,
    pub ipv6_gateway: Option<u128>,
    pub previous_ipv6_cidr: Option<Ipv6Cidr>,
}

pub open spec fn network_view(n: ResolvedDockerNetwork) -> DockerNetworkView {
    DockerNetworkView {
        logical_name: n.logical_name@,
        docker_name: n.docker_name@,
        ipv4_cidr: n.ipv4_cidr,
        ipv4_gateway: n.ipv4_gateway,
        ipv6_cidr: n.ipv6_cidr,
        ipv6_gateway: n.ipv6_gateway,
        previous_ipv6_cidr: n.previous_ipv6_cidr,
    }
}

pub open spec fn network_views(s: Seq<ResolvedDockerNetwork>) -> Seq<DockerNetworkView> {
    s.map_values(|n: ResolvedDockerNetwork| network_view(n))
}

/// The first address after the network address, if there is one.
pub open spec fn first_ipv4_of(c: Ipv4Cidr) -> Option<u32> {
    if v4_network(c) < u32::MAX {
        Some((v4_network(c) + 1) as u32)
    } else {
        None
    }
}

/// The first address after the network address, if there is one.
pub open spec fn first_ipv6_of(c: Ipv6Cidr) -> Option<u128> {
    if v6_network(c) < u128::MAX {
        Some((v6_network(c) + 1) as u128)
    } else {
        None
    }
}

/// The first address of an IPv4 network after its network address: the
/// gateway Docker is given.
pub fn first_ipv4(c: Ipv4Cidr) -> (r: Option<u32>)
    requires
        c.wf(),
    ensures
        r == first_ipv4_of(c),
{
    ipv4_network(c).checked_add(1)
}

/// The first address of an IPv6 network after its network address.
pub fn first_ipv6(c: Ipv6Cidr) -> (r: Option<u128>)
    requires
        c.wf(),
    ensures
        r == first_ipv6_of(c),
{
    ipv6_network(c).checked_add(1)
}

/// What network `e` contributes to the Docker plan of `host`: nothing
/// unless it is a Docker network `host` owns; otherwise the network with its
/// Docker name, IPv4 range and gateway, ULA subnet and gateway when enabled,
/// and the IPv6 range it used before a migration.
pub open spec fn docker_step(b: &ConfigBundle, host: Seq<char>, cfg: DockerHost, e: (String, LogicalNetwork)) -> Option<Seq<DockerNetworkView>> {
    let name = e.0@;
    let n = e.1;
    if !(n.kind == NetworkKind::Docker && (n.owner matches Some(o) && o@ == host)) {
        Some(Seq::empty())
    } else {
        let docker_name = match n.docker_name {
            Some(d) => d@,
            None => name,
        };
        match (n.ipv4_cidr, n.ipv4_gateway) {
            (Some(c), Some(g)) => {
                let previous = match lookup(cfg.network_migrations@, docker_name) {
                    Some(m) => m.previous_ipv6_cidr,
                    None => None,
                };
                if n.ula_enabled {
                    match network_ula_of(b, name) {
                        None => None,
                        Some(sub) => match first_ipv6_of(sub) {
                            None => None,
                            Some(g6) => Some(seq![DockerNetworkView { logical_name: name, docker_name, ipv4_cidr: c, ipv4_gateway: g, ipv6_cidr: Some(sub), ipv6_gateway: Some(g6), previous_ipv6_cidr: previous }]),
                        },
                    }
                } else {
                    Some(seq![DockerNetworkView { logical_name: name, docker_name, ipv4_cidr: c, ipv4_gateway: g, ipv6_cidr: None, ipv6_gateway: None, previous_ipv6_cidr: previous }])
                }
            },
            _ => None,
        }
    }
}

/// The Docker plan of `host` resolves: the host is known, enabled, has the
/// `docker` role and a Docker profile whose bridge networks have gateways,
/// and it owns at least one Docker network, each of which resolves.
pub open spec fn docker_ok(b: &ConfigBundle, host: Seq<char>) -> bool {
    &&& lookup(b.inventory.hosts@, host) matches Some(h) && h.enabled && texts(h.roles@).contains("docker"@)
    &&& lookup(b.docker.hosts@, host) matches Some(cfg) && {
        &&& opt_concat(b.networks.networks@, |e: (String, LogicalNetwork)| docker_step(b, host, cfg, e)) matches Some(ns) && ns.len() > 0
        &&& first_ipv4_of(cfg.bridge_ipv4_cidr) is Some
        &&& first_ipv6_of(cfg.bridge_ipv6_cidr) is Some
    }
}

/// Why network `e` is refused in the Docker plan of `host`: one of its own
/// Docker networks lacks an IPv4 range or gateway, its ULA subnet is
/// refused, or that subnet has no first address.
pub open spec fn docker_network_refusal(b: &ConfigBundle, e: (String, LogicalNetwork), err: PlanError) -> bool {
    let n = e.1;
    if n.ipv4_cidr is None {
        err matches PlanError::DockerNetworkNoIpv4 { network } && network@ == e.0@
    } else if n.ipv4_gateway is None {
        err matches PlanError::DockerNetworkNoGateway { network } && network@ == e.0@
    } else {
        match network_ula_of(b, e.0@) {
            None => network_ula_refusal(b, e.0@, err),
            Some(_) => err is NoGatewayAddress,
        }
    }
}

/// Why the Docker plan of `host` is refused, checked in this order: the
/// host, its role and profile, the first network that is refused, no network
/// at all, and the bridge gateways.
pub open spec fn docker_refusal(b: &ConfigBundle, host: Seq<char>, err: PlanError) -> bool {
    match lookup(b.inventory.hosts@, host) {
        None => err matches PlanError::UnknownHost { host: h } && h@ == host,
        Some(h) => if !h.enabled {
            err matches PlanError::HostDisabled { host: x } && x@ == host
        } else if !texts(h.roles@).contains("docker"@) {
            err matches PlanError::NotADockerHost { host: x } && x@ == host
        } else {
            match lookup(b.docker.hosts@, host) {
                None => err matches PlanError::NoDockerProfile { host: x } && x@ == host,
                Some(cfg) => match opt_concat(b.networks.networks@, |e: (String, LogicalNetwork)| docker_step(b, host, cfg, e)) {
                    None => exists|i: int| 0 <= i < b.networks.networks@.len()
                        && opt_concat(b.networks.networks@.take(i), |e: (String, LogicalNetwork)| docker_step(b, host, cfg, e)) is Some
                        && docker_step(b, host, cfg, #[trigger] b.networks.networks@[i]) is None
                        && docker_network_refusal(b, b.networks.networks@[i], err),
                    Some(ns) => if ns.len() == 0 {
                        err matches PlanError::NoDockerNetworks { host: x } && x@ == host
                    } else {
                        err is NoGatewayAddress
                    },
                },
            }
        },
    }
}

/// `p` is the Docker plan of `host`.
pub open spec fn docker_plan_of(b: &ConfigBundle, host: Seq<char>, p: ResolvedDockerPlan) -> bool {
    let cfg = lookup(b.docker.hosts@, host)->0;
    &&& p.location@ == b.location.name@
    &&& p.host@ == host
    &&& p.daemon.bridge_ipv4_cidr == cfg.bridge_ipv4_cidr
    &&& Some(p.daemon.bridge_ipv4_gateway) == first_ipv4_of(cfg.bridge_ipv4_cidr)
    &&& p.daemon.bridge_ipv6_cidr == cfg.bridge_ipv6_cidr
    &&& Some(p.daemon.bridge_ipv6_gateway) == first_ipv6_of(cfg.bridge_ipv6_cidr)
    &&& p.daemon.ipv4_pool_base == cfg.ipv4_pool_base
    &&& p.daemon.ipv4_pool_size == cfg.ipv4_pool_size
    &&& p.daemon.ipv6_pool_base == cfg.ipv6_pool_base
    &&& p.daemon.ipv6_pool_size == cfg.ipv6_pool_size
    &&& Some(network_views(p.networks@)) == opt_concat(b.networks.networks@, |e: (String, LogicalNetwork)| docker_step(b, host, cfg, e))
}

fn docker_network(b: &ConfigBundle, host: &str, cfg: &DockerHost, e: &(String, LogicalNetwork)) -> (r: Result<Vec<ResolvedDockerNetwork>, PlanError>)
    requires
        b.wf(),
        unique_keys(cfg.network_migrations@),
    ensures
        r is Ok <==> docker_step(b, host@, *cfg, *e) is Some,
        r matches Ok(v) ==> docker_step(b, host@, *cfg, *e) == Some(network_views(v@)),
        r matches Err(err) ==> docker_network_refusal(b, *e, err),
{
    let n = &e.1;
    let mut out: Vec<ResolvedDockerNetwork> = Vec::new();
    let mine = n.kind == NetworkKind::Docker && match &n.owner {
        Some(o) => str_eq(o.as_str(), host),
        None => false,
    };
    if !mine {
        assert(network_views(out@) =~= Seq::<DockerNetworkView>::empty());
        return Ok(out);
    }
    let docker_name = match &n.docker_name {
        Some(d) => owned(d.as_str()),
        None => owned(e.0.as_str()),
    };
    let c = match n.ipv4_cidr {
        Some(c) => c,
        None => {
            return Err(PlanError::DockerNetworkNoIpv4 { network: owned(e.0.as_str()) });
        },
    };
    let g = match n.ipv4_gateway {
        Some(g) => g,
        None => {
            return Err(PlanError::DockerNetworkNoGateway { network: owned(e.0.as_str()) });
        },
    };
    let (v6, g6) = if n.ula_enabled {
        let sub = network_ula(b, e.0.as_str())?;
        match first_ipv6(sub) {
            Some(g6) => (Some(sub), Some(g6)),
            None => {
                return Err(PlanError::NoGatewayAddress);
            },
        }
    } else {
        (None, None)
    };
    let previous = match find(&cfg.network_migrations, docker_name.as_str()) {
        Some(mi) => cfg.network_migrations[mi].1.previous_ipv6_cidr,
        None => None,
    };
    out.push(ResolvedDockerNetwork { logical_name: owned(e.0.as_str()), docker_name, ipv4_cidr: c, ipv4_gateway: g, ipv6_cidr: v6, ipv6_gateway: g6, previous_ipv6_cidr: previous });
    proof {
        let want = docker_step(b, host@, *cfg, *e)->0;
        assert(network_views(out@) =~= want);
    }
    Ok(out)
}

/// Resolves the Docker daemon settings and the Docker networks that
/// `host_name` owns.
#[verifier::loop_isolation(false)]
pub fn resolve_docker_plan(b: &ConfigBundle, host_name: &str) -> (r: Result<ResolvedDockerPlan, PlanError>)
    requires
        b.wf(),
    ensures
        r is Ok <==> docker_ok(b, host_name@),
        r matches Ok(p) ==> docker_plan_of(b, host_name@, p),
        r matches Err(err) ==> docker_refusal(b, host_name@, err),
        lookup(b.inventory.hosts@, host_name@) is None ==> (r matches Err(PlanError::UnknownHost { host }) && host@ == host_name@),
        lookup(b.inventory.hosts@, host_name@) matches Some(h) ==> (!h.enabled ==> (r matches Err(PlanError::HostDisabled { host }) && host@ == host_name@)),
        lookup(b.inventory.hosts@, host_name@) matches Some(h) ==> (h.enabled && !texts(h.roles@).contains("docker"@) ==> (r matches Err(PlanError::NotADockerHost { host }) && host@ == host_name@)),
        lookup(b.inventory.hosts@, host_name@) matches Some(h) ==> (h.enabled && texts(h.roles@).contains("docker"@) && lookup(b.docker.hosts@, host_name@) is None ==> (r matches Err(PlanError::NoDockerProfile { host }) && host@ == host_name@)),
{
    let hi = match find(&b.inventory.hosts, host_name) {
        None => {
            return Err(PlanError::UnknownHost { host: owned(host_name) });
        },
        Some(hi) => hi,
    };
    let host = &b.inventory.hosts[hi].1;
    if !host.enabled {
        return Err(PlanError::HostDisabled { host: owned(host_name) });
    }
    if !string_in(&host.roles, "docker") {
        return Err(PlanError::NotADockerHost { host: owned(host_name) });
    }
    let di = match find(&b.docker.hosts, host_name) {
        None => {
            return Err(PlanError::NoDockerProfile { host: owned(host_name) });
        },
        Some(di) => di,
    };
    let cfg = &b.docker.hosts[di].1;
    assert(unique_keys(b.docker.hosts@[di as int].1.network_migrations@));
    let ghost f = |e: (String, LogicalNetwork)| docker_step(b, host_name@, *cfg, e);
    let ghost nets = b.networks.networks@;
    let mut networks: Vec<ResolvedDockerNetwork> = Vec::new();
    let mut i: usize = 0;
    assert(nets.take(0) =~= Seq::<(String, LogicalNetwork)>::empty());
    while i < b.networks.networks.len()
        invariant
            i <= nets.len(),
            nets == b.networks.networks@,
            opt_concat(nets.take(i as int), f) == Some(network_views(networks@)),
        decreases nets.len() - i,
    {
        proof {
            lemma_opt_concat_step(nets, f, i as int);
        }
        let mut t = match docker_network(b, host_name, cfg, &b.networks.networks[i]) {
            Ok(t) => t,
            Err(err) => {
                proof {
                    lemma_opt_concat_none(nets, f, i as int);
                    assert(docker_step(b, host_name@, *cfg, nets[i as int]) is None);
                }
                return Err(err);
            },
        };
        let ghost (a, c) = (networks@, t@);
        networks.append(&mut t);
        assert(network_views(networks@) =~= network_views(a) + network_views(c));
        i = i + 1;
    }
    assert(nets.take(nets.len() as int) =~= nets);
    if networks.len() == 0 {
        return Err(PlanError::NoDockerNetworks { host: owned(host_name) });
    }
    let g4 = match first_ipv4(cfg.bridge_ipv4_cidr) {
        Some(g) => g,
        None => {
            return Err(PlanError::NoGatewayAddress);
        },
    };
    let g6 = match first_ipv6(cfg.bridge_ipv6_cidr) {
        Some(g) => g,
        None => {
            return Err(PlanError::NoGatewayAddress);
        },
    };
    Ok(ResolvedDockerPlan {
        location: owned(b.location.name.as_str()),
        host: owned(host_name),
        daemon: ResolvedDockerDaemon {
            bridge_ipv4_cidr: cfg.bridge_ipv4_cidr,
            bridge_ipv4_gateway: g4,
            bridge_ipv6_cidr: cfg.bridge_ipv6_cidr,
            bridge_ipv6_gateway: g6,
            ipv4_pool_base: cfg.ipv4_pool_base,
            ipv4_pool_size: cfg.ipv4_pool_size,
            ipv6_pool_base: cfg.ipv6_pool_base,
            ipv6_pool_size: cfg.ipv6_pool_size,
        },
        networks,
    })
}

/// A Docker network is named as configured: a resolved network carries its
/// logical name, and as its Docker name the configured `docker_name` when
/// one is set, the logical name only otherwise.
pub proof fn law_docker_name_as_configured(b: &ConfigBundle, host: Seq<char>, cfg: DockerHost, e: (String, LogicalNetwork))
    requires
        docker_step(b, host, cfg, e) matches Some(v) && v.len() > 0,
    ensures
        (docker_step(b, host, cfg, e)->0)[0].logical_name == e.0@,
        e.1.docker_name matches Some(d) ==> (docker_step(b, host, cfg, e)->0)[0].docker_name == d@,
        e.1.docker_name is None ==> (docker_step(b, host, cfg, e)->0)[0].docker_name == e.0@,
{
}

} // verus!
