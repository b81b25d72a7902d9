//! SSH client configuration: where each target is reached and how.

use vstd::prelude::*;

use crate::model::{ConfigBundle, SshClient, SshTarget};
use crate::net::{ipv4_display, ipv4_text};
use crate::plan::PlanError;
use crate::table::{find, lemma_opt_concat_none, lemma_opt_concat_step, lookup, opt_concat, unique_keys};
use crate::text::{concat, owned};

verus! {

#[derive(Debug)]
pub struct ResolvedSshTarget {
    pub alias: String,
    pub host_name: String,
    pub user: String,
    pub port: u16,
    pub identity_file: String,
    pub forward_agent: bool,
    pub source: String,
}

/// The SSH targets of one client profile.
#[derive(Debug)]
pub struct ResolvedSshPlan {
    pub location: String,
    pub client: String,
    pub targets: Vec<ResolvedSshTarget>,
}

/// A resolved target as plain values.
pub struct SshTargetView {
    pub alias: Seq<char>,
    pub host_name: Seq<char>,
    pub user: Seq<char>,
    pub port: u16,
    pub identity_file: Seq<char>,
    pub forward_agent: bool,
    pub source: Seq<char>,
}

pub open spec fn target_view(t: ResolvedSshTarget) -> SshTargetView {
    SshTargetView {
        alias: t.alias@,
        host_name: t.host_name@,
        user: t.user@,
        port: t.port,
        identity_file: t.identity_file@,
        forward_agent: t.forward_agent,
        source: t.source@,
    }
}

pub open spec fn target_views(s: Seq<ResolvedSshTarget>) -> Seq<SshTargetView> {
    s.map_values(|t: ResolvedSshTarget| target_view(t))
}

/// The IPv4 address text of `host` on `interface`: from its location
/// interface if it is attached at the location, else from its guest
/// definition.
pub open spec fn host_address_of(b: &ConfigBundle, host: Seq<char>, interface: Seq<char>) -> Option<Seq<char>> {
    match lookup(b.location.hosts@, host) {
        Some(lh) => match lookup(lh.interfaces@, interface) {
            Some(i) => match i.ipv4 {
                Some(a) => Some(ipv4_display(a)),
                None => None,
            },
            None => None,
        },
        None => match lookup(b.guests.guests@, host) {
            Some(g) => Some(ipv4_display(g.ipv4)),
            None => None,
        },
    }
}

/// How many of host, guest and service a target names.
pub open spec fn target_kinds(t: SshTarget) -> int {
    (if t.host is Some { 1int } else { 0int }) + (if t.guest is Some { 1int } else { 0int }) + (if t.service is Some { 1int } else { 0int })
}

pub open spec fn one_target(alias: Seq<char>, t: SshTarget, identity_file: Seq<char>, host_name: Seq<char>, port: u16, source: Seq<char>) -> Seq<SshTargetView> {
    seq![SshTargetView { alias, host_name, user: t.user@, port, identity_file, forward_agent: t.forward_agent, source }]
}

/// What target `e` contributes for `client`: nothing for a disabled host or
/// service, otherwise the target with its address, port and source; `None`
/// where the target is inconsistent or something it names is missing.
pub open spec fn ssh_step(b: &ConfigBundle, client: SshClient, e: (String, SshTarget)) -> Option<Seq<SshTargetView>> {
    let alias = e.0@;
    let t = e.1;
    if target_kinds(t) != 1 {
        None
    } else {
        match lookup(client.identities@, t.identity@) {
            None => None,
            Some(id) => {
                let iface = match t.interface {
                    Some(i) => i@,
                    None => "lan"@,
                };
                match t.host {
                    Some(h) => match lookup(b.inventory.hosts@, h@) {
                        None => None,
                        Some(ih) => if !ih.enabled {
                            Some(Seq::empty())
                        } else {
                            match host_address_of(b, h@, iface) {
                                None => None,
                                Some(a) => Some(one_target(alias, t, id.file@, a, t.port, "host:"@ + h@ + ":"@ + iface)),
                            }
                        },
                    },
                    None => match t.guest {
                        Some(g) => match lookup(b.guests.guests@, g@) {
                            None => None,
                            Some(gg) => Some(one_target(alias, t, id.file@, ipv4_display(gg.ipv4), t.port, "guest:"@ + g@)),
                        },
                        None => {
                            let sname = t.service->0@;
                            match lookup(b.services.services@, sname) {
                                None => None,
                                Some(s) => if !s.enabled {
                                    Some(Seq::empty())
                                } else {
                                    match s.ssh {
                                        None => None,
                                        Some(ssh) => match host_address_of(b, s.host@, iface) {
                                            None => None,
                                            Some(a) => Some(one_target(alias, t, id.file@, a, ssh.host_port, "service:"@ + sname)),
                                        },
                                    }
                                },
                            }
                        },
                    },
                }
            },
        }
    }
}

/// Why the address of `host` on `interface` is refused: an attached host
/// lacks the interface or its IPv4 address; a host neither attached nor a
/// guest has no address at all.
pub open spec fn address_refusal(b: &ConfigBundle, host: Seq<char>, interface: Seq<char>, err: PlanError) -> bool {
    match lookup(b.location.hosts@, host) {
        Some(lh) => if lookup(lh.interfaces@, interface) is None {
            err matches PlanError::NoInterface { host: h, interface: i } && h@ == host && i@ == interface
        } else {
            err matches PlanError::InterfaceNoIpv4 { host: h, interface: i } && h@ == host && i@ == interface
        },
        None => err matches PlanError::HostWithoutAddress { host: h, location: l } && h@ == host && l@ == b.location.name@,
    }
}

/// Why target `e` of client `client_name` is refused, checked in this
/// order: how many kinds it names, its identity, then what it names.
pub open spec fn ssh_refusal(b: &ConfigBundle, client: SshClient, client_name: Seq<char>, e: (String, SshTarget), err: PlanError) -> bool {
    let alias = e.0@;
    let t = e.1;
    let iface = match t.interface {
        Some(i) => i@,
        None => "lan"@,
    };
    if target_kinds(t) != 1 {
        err matches PlanError::SshTargetKinds { alias: a } && a@ == alias
    } else if lookup(client.identities@, t.identity@) is None {
        err matches PlanError::UnknownSshIdentity { alias: a, identity: i, client: c } && a@ == alias && i@ == t.identity@ && c@ == client_name
    } else {
        match t.host {
            Some(h) => if lookup(b.inventory.hosts@, h@) is None {
                err matches PlanError::SshUnknownHost { alias: a, host: x } && a@ == alias && x@ == h@
            } else {
                address_refusal(b, h@, iface, err)
            },
            None => match t.guest {
                Some(g) => err matches PlanError::SshUnknownGuest { alias: a, guest: x } && a@ == alias && x@ == g@,
                None => {
                    let sname = t.service->0@;
                    match lookup(b.services.services@, sname) {
                        None => err matches PlanError::SshUnknownService { alias: a, service: x } && a@ == alias && x@ == sname,
                        Some(s) => if s.ssh is None {
                            err matches PlanError::SshServiceWithoutSsh { alias: a, service: x } && a@ == alias && x@ == sname
                        } else {
                            address_refusal(b, s.host@, iface, err)
                        },
                    }
                },
            },
        }
    }
}

/// The IPv4 address text of `host` on `interface`.
fn host_address(b: &ConfigBundle, host: &str, interface: &str) -> (r: Result<String, PlanError>)
    requires
        b.wf(),
    ensures
        r is Ok <==> host_address_of(b, host@, interface@) is Some,
        r matches Ok(a) ==> host_address_of(b, host@, interface@) == Some(a@),
        r matches Err(err) ==> address_refusal(b, host@, interface@, err),
{
    match find(&b.location.hosts, host) {
        Some(hi) => {
            assert(unique_keys(b.location.hosts@[hi as int].1.interfaces@));
            match find(&b.location.hosts[hi].1.interfaces, interface) {
                Some(ii) => match b.location.hosts[hi].1.interfaces[ii].1.ipv4 {
                    Some(a) => Ok(ipv4_text(a)),
                    None => Err(PlanError::InterfaceNoIpv4 { host: owned(host), interface: owned(interface) }),
                },
                None => Err(PlanError::NoInterface { host: owned(host), interface: owned(interface) }),
            }
        },
        None => match find(&b.guests.guests, host) {
            Some(gi) => Ok(ipv4_text(b.guests.guests[gi].1.ipv4)),
            None => Err(PlanError::HostWithoutAddress { host: owned(host), location: owned(b.location.name.as_str()) }),
        },
    }
}

/// What target `e` contributes for `client`.
fn ssh_target(b: &ConfigBundle, client: &SshClient, client_name: &str, e: &(String, SshTarget)) -> (r: Result<Vec<ResolvedSshTarget>, PlanError>)
    requires
        b.wf(),
        unique_keys(client.identities@),
    ensures
        r is Ok <==> ssh_step(b, *client, *e) is Some,
        r matches Ok(v) ==> ssh_step(b, *client, *e) == Some(target_views(v@)),
        r matches Err(err) ==> ssh_refusal(b, *client, client_name@, *e, err),
{
    let alias = e.0.as_str();
    let t = &e.1;
    let kinds: u8 = (if t.host.is_some() { 1u8 } else { 0u8 }) + (if t.guest.is_some() { 1u8 } else { 0u8 }) + (if t.service.is_some() { 1u8 } else { 0u8 });
    if kinds != 1 {
        return Err(PlanError::SshTargetKinds { alias: owned(alias) });
    }
    let idi = match find(&client.identities, t.identity.as_str()) {
        None => {
            return Err(PlanError::UnknownSshIdentity { alias: owned(alias), identity: owned(t.identity.as_str()), client: owned(client_name) });
        },
        Some(i) => i,
    };
    let file = client.identities[idi].1.file.as_str();
    let iface: &str = match &t.interface {
        Some(i) => i.as_str(),
        None => "lan",
    };
    let mut out: Vec<ResolvedSshTarget> = Vec::new();
    match &t.host {
        Some(h) => {
            let hi = match find(&b.inventory.hosts, h.as_str()) {
                None => {
                    return Err(PlanError::SshUnknownHost { alias: owned(alias), host: owned(h.as_str()) });
                },
                Some(hi) => hi,
            };
            if b.inventory.hosts[hi].1.enabled {
                let a = host_address(b, h.as_str(), iface)?;
                let src = concat("host:", h.as_str());
                let src = concat(src.as_str(), ":");
                let src = concat(src.as_str(), iface);
                out.push(ResolvedSshTarget { alias: owned(alias), host_name: a, user: owned(t.user.as_str()), port: t.port, identity_file: owned(file), forward_agent: t.forward_agent, source: src });
            }
        },
        None => match &t.guest {
            Some(g) => {
                let gi = match find(&b.guests.guests, g.as_str()) {
                    None => {
                        return Err(PlanError::SshUnknownGuest { alias: owned(alias), guest: owned(g.as_str()) });
                    },
                    Some(gi) => gi,
                };
                let src = concat("guest:", g.as_str());
                out.push(ResolvedSshTarget { alias: owned(alias), host_name: ipv4_text(b.guests.guests[gi].1.ipv4), user: owned(t.user.as_str()), port: t.port, identity_file: owned(file), forward_agent: t.forward_agent, source: src });
            },
            None => {
                let sname = match &t.service {
                    Some(s) => s.as_str(),
                    None => {
                        return Err(PlanError::SshTargetKinds { alias: owned(alias) });
                    },
                };
                let si = match find(&b.services.services, sname) {
                    None => {
                        return Err(PlanError::SshUnknownService { alias: owned(alias), service: owned(sname) });
                    },
                    Some(si) => si,
                };
                let s = &b.services.services[si].1;
                if s.enabled {
                    let ssh = match &s.ssh {
                        None => {
                            return Err(PlanError::SshServiceWithoutSsh { alias: owned(alias), service: owned(sname) });
                        },
                        Some(x) => x,
                    };
                    let a = host_address(b, s.host.as_str(), iface)?;
                    let src = concat("service:", sname);
                    out.push(ResolvedSshTarget { alias: owned(alias), host_name: a, user: owned(t.user.as_str()), port: ssh.host_port, identity_file: owned(file), forward_agent: t.forward_agent, source: src });
                }
            },
        },
    }
    proof {
        let want = ssh_step(b, *client, *e)->0;
        assert(target_views(out@) =~= want);
    }
    Ok(out)
}

/// Why the SSH plan of client `client` is refused: an unknown client, or
/// its first target refused.
pub open spec fn ssh_plan_refusal(b: &ConfigBundle, client: Seq<char>, err: PlanError) -> bool {
    match lookup(b.ssh.clients@, client) {
        None => err matches PlanError::UnknownSshClient { client: c } && c@ == client,
        Some(c) => exists|i: int| 0 <= i < b.ssh.targets@.len()
            && opt_concat(b.ssh.targets@.take(i), |e: (String, SshTarget)| ssh_step(b, c, e)) is Some
            && ssh_step(b, c, #[trigger] b.ssh.targets@[i]) is None && ssh_refusal(b, c, client, b.ssh.targets@[i], err),
    }
}

/// Resolves the SSH targets of client profile `client_name`, each with the
/// address, port, identity and source it is reached through, in alias order.
pub fn resolve_ssh_plan(b: &ConfigBundle, client_name: &str) -> (r: Result<ResolvedSshPlan, PlanError>)
    requires
        b.wf(),
    ensures
        r is Ok <==> (lookup(b.ssh.clients@, client_name@) matches Some(c) && opt_concat(b.ssh.targets@, |e: (String, SshTarget)| ssh_step(b, c, e)) is Some),
        r matches Ok(p) ==> p.location@ == b.location.name@ && p.client@ == client_name@ && Some(target_views(p.targets@)) == opt_concat(b.ssh.targets@, |e: (String, SshTarget)| ssh_step(b, lookup(b.ssh.clients@, client_name@)->0, e)),
        lookup(b.ssh.clients@, client_name@) is None ==> (r matches Err(PlanError::UnknownSshClient { client }) && client@ == client_name@),
        r matches Err(err) ==> ssh_plan_refusal(b, client_name@, err),
        lookup(b.ssh.clients@, client_name@) matches Some(c) ==> (r matches Err(err) ==> exists|i: int| 0 <= i < b.ssh.targets@.len()
            && opt_concat(b.ssh.targets@.take(i), |e: (String, SshTarget)| ssh_step(b, c, e)) is Some
            && ssh_step(b, c, #[trigger] b.ssh.targets@[i]) is None && ssh_refusal(b, c, client_name@, b.ssh.targets@[i], err)),
{
    let ci = match find(&b.ssh.clients, client_name) {
        None => {
            return Err(PlanError::UnknownSshClient { client: owned(client_name) });
        },
        Some(ci) => ci,
    };
    let client = &b.ssh.clients[ci].1;
    assert(unique_keys(b.ssh.clients@[ci as int].1.identities@));
    assert(lookup(b.ssh.clients@, client_name@) == Some(*client));
    let ghost f = |e: (String, SshTarget)| ssh_step(b, *client, e);
    let ghost ts = b.ssh.targets@;
    let mut targets: Vec<ResolvedSshTarget> = Vec::new();
    let mut i: usize = 0;
    assert(ts.take(0) =~= Seq::<(String, SshTarget)>::empty());
    while i < b.ssh.targets.len()
        invariant
            b.wf(),
            unique_keys(client.identities@),
            lookup(b.ssh.clients@, client_name@) == Some(*client),
            ts == b.ssh.targets@,
            i <= ts.len(),
            f == (|e: (String, SshTarget)| ssh_step(b, *client, e)),
            opt_concat(ts.take(i as int), f) == Some(target_views(targets@)),
        decreases ts.len() - i,
    {
        proof {
            lemma_opt_concat_step(ts, f, i as int);
        }
        let mut t = match ssh_target(b, client, client_name, &b.ssh.targets[i]) {
            Ok(t) => t,
            Err(err) => {
                proof {
                    lemma_opt_concat_none(ts, f, i as int);
                    assert(ssh_step(b, *client, ts[i as int]) is None);
                }
                return Err(err);
            },
        };
        let ghost (before, tv) = (target_views(targets@), target_views(t@));
        let ghost (a, c) = (targets@, t@);
        targets.append(&mut t);
        assert(target_views(targets@) =~= before + tv) by {
            assert(targets@ == a + c);
        }
        i = i + 1;
    }
    assert(ts.take(ts.len() as int) =~= ts);
    Ok(ResolvedSshPlan { location: owned(b.location.name.as_str()), client: owned(client_name), targets })
}

/// A target that names a service connects to the service's SSH settings:
/// when it resolves to an entry, the entry's port is the host port of the
/// service's SSH settings, not the target's own port field.
pub proof fn law_service_target_uses_service_ssh_port(b: &ConfigBundle, c: SshClient, e: (String, SshTarget))
    requires
        e.1.host is None,
        e.1.guest is None,
        e.1.service is Some,
        ssh_step(b, c, e) matches Some(v) && v.len() > 0,
    ensures
        lookup(b.services.services@, e.1.service->0@) matches Some(s) && s.ssh matches Some(ssh)
            && (ssh_step(b, c, e)->0)[0].port == ssh.host_port,
{
}

/// Every resolved target connects on the right port: a host or guest target
/// on its own `port`, a service target on the host port of the service's
/// SSH settings.
pub proof fn law_target_port(b: &ConfigBundle, c: SshClient, e: (String, SshTarget))
    requires
        ssh_step(b, c, e) matches Some(v) && v.len() > 0,
    ensures
        (e.1.host is Some || e.1.guest is Some) ==> (ssh_step(b, c, e)->0)[0].port == e.1.port,
        (e.1.host is None && e.1.guest is None) ==> (lookup(b.services.services@, e.1.service->0@) matches Some(s)
            && s.ssh matches Some(ssh) && (ssh_step(b, c, e)->0)[0].port == ssh.host_port),
{
}

} // verus!
